//! Telling the ways of not reaching the service apart, and how long to wait between tries.

use vfsmount_tray::errors::BusFailure;
use vfsmount_tray::ipc::IpcError;
use vfsmount_tray::link::{
    classify, classify_error_name, from_ipc, from_zbus, handshake, Backoff, LinkError, Wire,
    MIN_INTERFACE, START_HINT, UNIT,
};

fn named(name: &str) -> BusFailure {
    BusFailure {
        name: Some(name.to_string()),
        message: Some("words".to_string()),
        text: format!("{name}: words"),
    }
}

#[test]
fn link_the_not_running_message_offers_the_start_command_and_denies_the_inference() {
    let m = LinkError::<String>::NotRunning.message();
    assert!(m.contains(START_HINT), "{m}");
    assert!(
        m.contains("still up"),
        "the message must refuse the disconnected-means-unmounted reading: {m}"
    );
    assert_eq!(LinkError::<String>::NotRunning.exit_code(), 3);
}

#[test]
fn link_error_names_sort_into_the_right_bucket() {
    assert!(matches!(
        classify_error_name("org.freedesktop.DBus.Error.ServiceUnknown"),
        Wire::NotRunning
    ));
    // Both names a bus daemon uses for "nobody is answering to that".
    assert!(matches!(
        classify_error_name("org.freedesktop.DBus.Error.NameHasNoOwner"),
        Wire::NotRunning
    ));
    assert!(matches!(
        classify_error_name("org.freedesktop.DBus.Error.UnknownInterface"),
        Wire::Incompatible
    ));
    assert!(matches!(
        classify_error_name("org.freedesktop.DBus.Error.AccessDenied"),
        Wire::Transport
    ));
}

#[test]
fn the_start_hint_names_the_unit_the_menu_acts_on() {
    // Two spellings of one unit: the sentence the CLI prints and the argument the tray's
    // "Start service" item passes to systemctl.
    assert!(
        START_HINT.ends_with(UNIT),
        "{START_HINT:?} does not start {UNIT:?}"
    );
}

#[test]
fn the_wait_doubles_up_to_the_ceiling_and_stays_there() {
    let mut b = Backoff::new();
    let waits: Vec<u64> = (0..10).map(|_| b.take()).collect();
    assert_eq!(waits[0], Backoff::FIRST);
    assert_eq!(waits[1], 2);
    assert_eq!(waits[2], 4);
    assert_eq!(
        *waits.last().unwrap(),
        Backoff::CEILING,
        "a long outage must not grow the wait without bound"
    );
    assert!(
        waits.windows(2).all(|w| w[0] <= w[1]),
        "the wait never shortens without a reset: {waits:?}"
    );
    assert_eq!(waits, [1, 2, 4, 8, 16, 32, 60, 60, 60, 60]);
}

#[test]
fn a_connection_that_worked_starts_the_wait_over() {
    // A service that restarts every few minutes must not inherit the ceiling from an
    // outage hours earlier — the next restart would take a minute to notice.
    let mut b = Backoff::new();
    for _ in 0..10 {
        b.take();
    }
    b.reset();
    assert_eq!(b.take(), Backoff::FIRST);
}

#[test]
fn a_failure_without_a_name_is_a_failure_of_the_transport() {
    let e = BusFailure {
        name: None,
        message: None,
        text: "connection reset".to_string(),
    };
    assert!(matches!(classify(&e), Wire::Transport));
    assert_eq!(
        from_zbus(e),
        LinkError::Transport("connection reset".to_string())
    );
    for gone in ["UnknownObject", "UnknownMethod", "UnknownProperty"] {
        assert_eq!(
            from_zbus(named(&format!("org.freedesktop.DBus.Error.{gone}"))),
            LinkError::Incompatible
        );
    }
}

#[test]
fn a_refusal_keeps_its_own_words() {
    let refused = from_ipc(IpcError::UnknownMount("no mount named \"nope\"".to_string()));
    assert_eq!(refused.exit_code(), 1);
    assert_eq!(refused.message(), "no mount named \"nope\"");
    assert_eq!(
        from_ipc(IpcError::Refused(None)).message(),
        "the service refused the request"
    );
    assert_eq!(
        from_ipc(IpcError::NotManaged("not ours".to_string())).message(),
        "not ours"
    );
    assert_eq!(
        from_ipc(IpcError::Busy("in use".to_string())).message(),
        "in use"
    );
    assert_eq!(
        from_ipc(IpcError::ZBus(named(
            "org.freedesktop.DBus.Error.ServiceUnknown"
        ))),
        LinkError::NotRunning
    );
}

#[test]
fn every_failure_has_its_sentence_and_its_code() {
    let bus = LinkError::NoSessionBus("no address".to_string());
    assert_eq!(bus.exit_code(), 5);
    assert_eq!(
        bus.message(),
        "No session bus to reach (no address). This runs inside a desktop session; over SSH, \
         point DBUS_SESSION_BUS_ADDRESS at the user bus."
    );
    assert_eq!(
        LinkError::<String>::NotRunning.message(),
        "The rclone-vfsmount-tray service is not running. Start it with:\n    \
         systemctl --user start rclone-vfsmount-trayd\n\
         This says nothing about your mounts: any that were up are still up."
    );
    assert_eq!(LinkError::<String>::Incompatible.exit_code(), 4);
    assert_eq!(
        LinkError::<String>::Incompatible.message(),
        "The service on this bus does not answer io.github.stuckj.RcloneVfsmountTray1. It is a \
         different, incompatible version of the interface; update the client and service to match."
    );
    let old: LinkError = LinkError::TooOld { needed: 2, found: 1 };
    assert_eq!(old.exit_code(), 4);
    assert_eq!(
        old.message(),
        "This command needs interface version 2, but the service provides 1. \
         Update rclone-vfsmount-trayd."
    );
    let lost = LinkError::Transport("reset".to_string());
    assert_eq!(lost.exit_code(), 5);
    assert_eq!(lost.message(), "The service could not be reached: reset");
}

#[test]
fn a_newer_service_is_talked_to_and_an_older_one_is_not() {
    assert_eq!(handshake(MIN_INTERFACE), Ok(()));
    assert_eq!(handshake(7), Ok(()));
    assert_eq!(
        handshake(0),
        Err(LinkError::TooOld { needed: 1, found: 0 })
    );
}
