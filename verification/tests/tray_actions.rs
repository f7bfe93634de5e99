//! Carrying out what the menu asked for, and what the tray says of it.

use vfsmount_tray::actions::{
    carry_out, complaint, last_words, open_in_file_manager, report, unit, unreachable_now, Errand,
    Ran, COMPLAINT_CAP,
};
use vfsmount_tray::ipc::IpcError;
use vfsmount_tray::model::{Action, TrayModel};

#[test]
fn a_failing_program_is_quoted_rather_than_reduced_to_its_exit_status() {
    // What systemd writes when the unit is not installed. "exited with 5" sends the
    // reader to the journal; this sentence says what to fix.
    let said = "Failed to start rclone-vfsmount-trayd.service: Unit rclone-vfsmount-trayd.service not found.";
    assert_eq!(
        complaint(&format!("{said}\n").into_bytes()).as_deref(),
        Some(said)
    );
}

#[test]
fn the_last_thing_said_is_the_one_shown() {
    assert_eq!(
        complaint(&b"warming up\nthe real problem\n\n".to_vec()).as_deref(),
        Some("the real problem")
    );
    assert_eq!(complaint(&b"".to_vec()).as_deref(), None);
    assert_eq!(complaint(&b"   \n \n".to_vec()).as_deref(), None);
}

#[test]
fn a_program_that_will_not_stop_talking_does_not_become_the_whole_menu() {
    let long = "x".repeat(500);
    let got = complaint(&long.into_bytes()).expect("something was said");
    assert!(got.chars().count() < 210, "{} chars", got.chars().count());
    assert!(got.ends_with('…'));
    assert_eq!(got, format!("{} …", "x".repeat(COMPLAINT_CAP)));
}

#[test]
fn invalid_utf8_is_still_readable_rather_than_dropped() {
    assert!(complaint(&vec![0xff, b'h', b'i']).is_some());
    assert_eq!(
        complaint(&vec![0xff, b'h', b'i']).as_deref(),
        Some("\u{fffd}hi")
    );
}

#[test]
fn a_complaint_as_long_as_the_cap_is_whole() {
    let fits = "é".repeat(COMPLAINT_CAP);
    assert_eq!(last_words(&fits), Some(fits.clone()));
    assert_eq!(
        last_words("first\r\n  second \u{3000}\r\n\r\n").as_deref(),
        Some("second")
    );
}

#[test]
fn a_click_becomes_one_errand_and_an_unmount_is_never_forced() {
    let name = || "photos".to_string();
    assert_eq!(carry_out(Action::Mount(name()), true), Errand::Mount(name()));
    assert_eq!(
        carry_out(Action::Unmount(name()), true),
        Errand::Unmount(name(), false)
    );
    assert_eq!(
        carry_out(Action::Mount(name()), false),
        Errand::Unreachable(name())
    );
    assert_eq!(
        carry_out(Action::Unmount(name()), false),
        Errand::Unreachable(name())
    );
    assert_eq!(
        carry_out(Action::Open("/mnt".to_string()), false),
        Errand::Open("/mnt".to_string())
    );
    assert_eq!(
        carry_out(Action::StartService, false),
        Errand::Unit("start".to_string())
    );
    assert_eq!(
        carry_out(Action::StopService, true),
        Errand::Unit("stop".to_string())
    );
    assert_eq!(carry_out(Action::Refresh, true), Errand::Refresh);
    assert_eq!(carry_out(Action::Quit, true), Errand::Quit);
}

#[test]
fn an_outcome_is_reported_where_it_belongs() {
    let mut m = TrayModel::new();
    unreachable_now(&mut m, "photos");
    let n = m.notice().unwrap();
    assert_eq!(n.mount.as_deref(), Some("photos"));
    assert_eq!(n.text, "The service is not reachable");

    report(&mut m, "photos", Err(IpcError::Busy("still in use".to_string())));
    assert_eq!(m.notice().unwrap().text, "photos: still in use");

    report(&mut m, "docs", Ok(()));
    assert!(m.notice().is_some(), "it is another mount's notice");
    report(&mut m, "photos", Ok(()));
    assert!(m.notice().is_none());

    m.set_notice(None, "about no mount".to_string());
    report(&mut m, "photos", Ok(()));
    assert!(m.notice().is_some());
}

#[test]
fn a_program_that_fails_is_named() {
    assert_eq!(open_in_file_manager("/mnt/photos", Ran::Success), None);
    let failed = || Ran::Failure {
        status: "exit status: 4".to_string(),
        stderr: Vec::new(),
    };
    assert_eq!(
        open_in_file_manager("/mnt/photos", failed()).as_deref(),
        Some("xdg-open could not open /mnt/photos: exit status: 4")
    );
    assert_eq!(
        open_in_file_manager("/mnt/photos", Ran::NotRun("gone".to_string())).as_deref(),
        Some("could not run xdg-open: gone")
    );
    assert_eq!(unit("start", Ran::Success), None);
    assert_eq!(
        unit("start", failed()).as_deref(),
        Some("Could not start the service: systemctl exited with exit status: 4")
    );
    assert_eq!(
        unit(
            "stop",
            Ran::Failure {
                status: "exit status: 5".to_string(),
                stderr: b"Unit not found.\n".to_vec(),
            }
        )
        .as_deref(),
        Some("Could not stop the service: Unit not found.")
    );
    assert_eq!(
        unit("start", Ran::NotRun("gone".to_string())).as_deref(),
        Some("could not run systemctl: gone")
    );
}
