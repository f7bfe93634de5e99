//! Units of the service manager: their properties, their state, and what they said.

use vfsmount_tray::config::Mount;
use vfsmount_tray::errors::{BusFailure, SupervisorError};
use vfsmount_tray::journal::{
    account_of, entry, read_entry, what_the_unit_said, Entry, Message,
};
use vfsmount_tray::systemd::{
    has_exec_start, loaded_unit, not_found, serving, start_properties, stopped, unit_status,
    PropertyValue, Serving, UnitSpec, UnitStatus,
};

/// A window around a failure: a mount point that was not empty, retried until the service
/// manager gave up.
const A_REAL_WINDOW: &str = r#"{"_COMM":"systemd","MESSAGE":"Starting rvt-mount-bad.service - rclone mount jsrc: at /home/j/mnt..."}
{"_COMM":"systemd","MESSAGE":"Started rvt-mount-bad.service - rclone mount jsrc: at /home/j/mnt."}
{"_COMM":"rclone","MESSAGE":"ERROR+4: Fatal error: failed to mount FUSE fs: \"/home/j/mnt\" is not empty, use --allow-non-empty to mount anyway"}
{"_COMM":"systemd","MESSAGE":"rvt-mount-bad.service: Main process exited, code=exited, status=1/FAILURE"}
{"_COMM":"systemd","MESSAGE":"rvt-mount-bad.service: Failed with result 'exit-code'."}
{"_COMM":"systemd","MESSAGE":"rvt-mount-bad.service: Scheduled restart job, restart counter is at 1."}
{"_COMM":"systemd","MESSAGE":"rvt-mount-bad.service: Start request repeated too quickly."}
{"_COMM":"systemd","MESSAGE":"Failed to start rvt-mount-bad.service - rclone mount jsrc: at /home/j/mnt."}
"#;

#[test]
fn a_failure_reason_is_what_rclone_said_not_what_systemd_said_about_it() {
    let said = what_the_unit_said(A_REAL_WINDOW);
    assert_eq!(
        said,
        "ERROR+4: Fatal error: failed to mount FUSE fs: \"/home/j/mnt\" is not empty, \
         use --allow-non-empty to mount anyway"
    );
}

#[test]
fn one_complaint_repeated_by_a_restart_loop_is_said_once() {
    let thrice = A_REAL_WINDOW.repeat(3);
    let said = what_the_unit_said(&thrice);
    assert_eq!(said.lines().count(), 1, "{said}");
    assert!(said.contains("use --allow-non-empty"), "{said}");
}

#[test]
fn a_unit_that_died_before_it_spoke_still_gets_systemds_account() {
    let only_systemd = r#"{"_COMM":"systemd","MESSAGE":"rvt-mount-bad.service: Failed to locate executable /usr/bin/rclone: No such file or directory"}
{"_COMM":"systemd","MESSAGE":"rvt-mount-bad.service: Failed with result 'exit-code'."}
"#;
    let said = what_the_unit_said(only_systemd);
    assert!(said.contains("Failed to locate executable"), "{said}");
}

#[test]
fn a_window_that_cannot_be_read_reports_nothing_rather_than_failing() {
    assert_eq!(what_the_unit_said(""), "");
    assert_eq!(what_the_unit_said("not json at all\n"), "");
}

#[test]
fn output_that_is_not_utf8_still_reaches_the_reason() {
    // journalctl hands those over as an array of bytes rather than a string.
    let raw = r#"{"_COMM":"rclone","MESSAGE":[104,105,255,33]}"#;
    assert!(
        what_the_unit_said(raw).starts_with("hi"),
        "{}",
        what_the_unit_said(raw)
    );
    assert_eq!(what_the_unit_said(raw), "hi\u{fffd}!");
}

#[test]
fn an_entry_is_read_by_its_fields() {
    assert_eq!(
        read_entry(r#"{"MESSAGE":"hello","_COMM":"rclone"}"#),
        Some(Entry {
            from_systemd: false,
            text: "hello".to_string()
        })
    );
    assert_eq!(
        read_entry(r#"{"MESSAGE":"hello","_COMM":"systemd"}"#),
        Some(Entry {
            from_systemd: true,
            text: "hello".to_string()
        })
    );
    assert_eq!(read_entry(r#"{"MESSAGE":null}"#), None);
    assert_eq!(read_entry("[1,2]"), None);
    assert_eq!(read_entry(r#"{"MESSAGE": 5}"#), None);
    assert_eq!(entry(Message::Missing, None), None);
}

#[test]
fn an_account_keeps_the_order_of_what_was_said() {
    let said = |text: &str| Entry {
        from_systemd: false,
        text: text.to_string(),
    };
    assert_eq!(
        account_of(&vec![said("a"), said("b"), said("b"), said("a")]),
        "a\nb\na"
    );
    assert_eq!(account_of(&vec![]), "");
}

fn spec() -> UnitSpec {
    UnitSpec {
        name: "rvt-mount-backup.service".into(),
        description: "rclone mount backup: at /mnt".into(),
        executable: "/usr/bin/rclone".into(),
        args: vec!["mount".into(), "backup:".into(), "/mnt".into()],
        pre_start: Some(("/bin/trayd".into(), vec!["prepare-mount".into()])),
        umask: 0o022,
    }
}

#[test]
fn a_unit_starts_with_the_properties_its_recovery_needs() {
    let props = start_properties(&spec());
    let get = |name: &str| {
        props
            .iter()
            .find(|p| p.name == name)
            .map(|p| p.value.clone())
    };
    assert_eq!(
        get("Description"),
        Some(PropertyValue::Text("rclone mount backup: at /mnt".into()))
    );
    assert_eq!(get("Type"), Some(PropertyValue::Text("exec".into())));
    assert_eq!(get("UMask"), Some(PropertyValue::U32(18)));
    match get("ExecStart") {
        Some(PropertyValue::Command(c)) => {
            assert_eq!(c.binary, "/usr/bin/rclone");
            assert_eq!(c.argv, ["/usr/bin/rclone", "mount", "backup:", "/mnt"]);
            assert!(!c.ignore_errors);
        }
        other => panic!("expected a command, got {other:?}"),
    }
    match get("ExecStartPre") {
        Some(PropertyValue::Command(c)) => {
            assert_eq!(c.binary, "/bin/trayd");
            assert_eq!(c.argv, ["/bin/trayd", "prepare-mount"]);
        }
        other => panic!("expected a command, got {other:?}"),
    }
    let mut bare = spec();
    bare.pre_start = None;
    assert!(!start_properties(&bare)
        .iter()
        .any(|p| p.name == "ExecStartPre"));
}

#[test]
fn a_state_name_is_read() {
    for (name, status, serves) in [
        ("active", UnitStatus::Active, true),
        ("reloading", UnitStatus::Active, true),
        ("activating", UnitStatus::Activating, false),
        ("deactivating", UnitStatus::Deactivating, true),
        ("failed", UnitStatus::Failed, false),
        ("inactive", UnitStatus::Inactive, false),
        ("maintenance", UnitStatus::Inactive, false),
    ] {
        assert_eq!(unit_status(name), status, "{name}");
        assert_eq!(status.is_serving(), serves, "{name}");
    }
    assert_eq!(UnitStatus::default(), UnitStatus::Inactive);
}

#[test]
fn what_a_unit_serves_is_read_back_from_its_argv() {
    let m = Mount {
        name: "backup".to_string(),
        remote: "backup".to_string(),
        path: "pictures".to_string(),
        mount_point: "/mnt/backup".to_string(),
    };
    let mut argv = vec!["/usr/bin/rclone".to_string()];
    argv.extend(m.mount_args("/run/backup.sock", &vec!["--read-only".to_string()]));
    let served = Some(Serving {
        fs_spec: "backup:pictures".to_string(),
        mount_point: "/mnt/backup".to_string(),
    });
    assert_eq!(serving(&vec![argv.clone()]), served);
    assert_eq!(serving(&vec![]), None);
    assert_eq!(serving(&vec![vec!["/bin/true".to_string()]]), None);

    let u = loaded_unit("rvt-mount-backup.service".to_string(), "active", &vec![argv]);
    assert_eq!(u.status, UnitStatus::Active);
    assert_eq!(u.serving, served);
    assert!(has_exec_start("rvt-mount-backup.service"));
}

fn bus(name: &str) -> BusFailure {
    BusFailure {
        name: Some(name.to_string()),
        message: Some("said so".to_string()),
        text: "said so".to_string(),
    }
}

#[test]
fn a_unit_that_is_not_loaded_is_not_an_error() {
    let gone = "org.freedesktop.systemd1.NoSuchUnit";
    assert_eq!(stopped("u.service", Ok(())), Ok(()));
    assert_eq!(stopped("u.service", Err(bus(gone))), Ok(()));
    assert!(matches!(
        stopped(
            "u.service",
            Err(bus("org.freedesktop.DBus.Error.AccessDenied"))
        ),
        Err(SupervisorError::Supervision { .. })
    ));
    assert_eq!(not_found("u.service", bus(gone)), Ok(UnitStatus::Inactive));
    assert!(matches!(
        not_found("u.service", bus("org.freedesktop.DBus.Error.AccessDenied")),
        Err(SupervisorError::Supervision { .. })
    ));
}
