//! The link to the service over its whole lifetime.

use vfsmount_tray::errors::BusFailure;
use vfsmount_tray::ipc::MountView;
use vfsmount_tray::link::LinkError;
use vfsmount_tray::model::{ServiceInfo, TrayModel, TrayState};
use vfsmount_tray::session::{apply, Event, Handle, Session, Snapshot, Stage};

fn snapshot() -> Snapshot {
    Snapshot {
        info: ServiceInfo {
            service_version: "0.1.0".to_string(),
            interface_version: 1,
            rclone_version: "1.75.0".to_string(),
            capability_tier: "T2".to_string(),
        },
        mounts: vec![MountView {
            name: "photos".to_string(),
            state: "unmounted".to_string(),
            live: false,
            managed: true,
            reason: None,
            mount_point: None,
            remote: None,
        }],
        transfers: Vec::new(),
    }
}

fn failure() -> BusFailure {
    BusFailure {
        name: None,
        message: None,
        text: "reset".to_string(),
    }
}

/// Give the session an event and apply what it asks for.
fn feed(s: &mut Session, m: &mut TrayModel, e: Event) -> Handle {
    let turn = s.step(e);
    apply(m, turn.edit);
    turn.handle
}

fn attached() -> (Session, TrayModel) {
    let mut s = Session::new();
    let mut m = TrayModel::new();
    feed(&mut s, &mut m, Event::Connected(Ok(())));
    feed(&mut s, &mut m, Event::Followed(Ok(())));
    feed(&mut s, &mut m, Event::Owner(Ok(true)));
    feed(&mut s, &mut m, Event::Opened(Ok(())));
    feed(&mut s, &mut m, Event::Subscribed(Ok(())));
    feed(&mut s, &mut m, Event::Gathered(Ok(snapshot())));
    (s, m)
}

#[test]
fn a_session_subscribes_before_it_reads_and_publishes_after() {
    let mut s = Session::new();
    let mut m = TrayModel::new();
    assert_eq!(s.stage(), Stage::Connect);
    assert_eq!(feed(&mut s, &mut m, Event::Connected(Ok(()))), Handle::Keep);
    assert_eq!(s.stage(), Stage::Follow);
    feed(&mut s, &mut m, Event::Followed(Ok(())));
    assert_eq!(s.stage(), Stage::AskOwner);
    feed(&mut s, &mut m, Event::Owner(Ok(true)));
    assert_eq!(s.stage(), Stage::Open);
    feed(&mut s, &mut m, Event::Opened(Ok(())));
    assert_eq!(s.stage(), Stage::Subscribe);
    feed(&mut s, &mut m, Event::Subscribed(Ok(())));
    assert_eq!(s.stage(), Stage::Gather);
    assert_eq!(m.state(), TrayState::Connecting);
    assert_eq!(
        feed(&mut s, &mut m, Event::Gathered(Ok(snapshot()))),
        Handle::Publish
    );
    assert_eq!(s.stage(), Stage::Serve);
    assert_eq!(m.state(), TrayState::Offline);
    assert_eq!(m.mounts().len(), 1);
}

#[test]
fn an_absent_service_is_waited_for_and_never_called() {
    let mut s = Session::new();
    let mut m = TrayModel::new();
    feed(&mut s, &mut m, Event::Connected(Ok(())));
    feed(&mut s, &mut m, Event::Followed(Ok(())));
    assert_eq!(feed(&mut s, &mut m, Event::Owner(Ok(false))), Handle::Drop);
    assert_eq!(s.stage(), Stage::AwaitOwner);
    assert_eq!(m.state(), TrayState::Disconnected);
    feed(&mut s, &mut m, Event::OwnerChanged);
    assert_eq!(s.stage(), Stage::AskOwner);
}

#[test]
fn signals_reach_the_rows() {
    let (mut s, mut m) = attached();
    let mut up = snapshot().mounts[0].clone();
    up.state = "mounted".to_string();
    up.live = true;
    feed(&mut s, &mut m, Event::MountChanged(up));
    assert_eq!(m.state(), TrayState::Degraded);
    feed(&mut s, &mut m, Event::MountRemoved("photos".to_string()));
    assert_eq!(m.mounts().len(), 0);
    assert_eq!(s.stage(), Stage::Serve);
}

#[test]
fn a_new_owner_starts_the_session_over_at_once() {
    let (mut s, mut m) = attached();
    assert_eq!(feed(&mut s, &mut m, Event::OwnerChanged), Handle::Drop);
    assert_eq!(s.stage(), Stage::AskOwner);
    assert_eq!(m.state(), TrayState::Disconnected);
    assert_eq!(m.mounts().len(), 0);
}

#[test]
fn a_refresh_re_reads_over_the_open_link() {
    let (mut s, mut m) = attached();
    m.set_notice(Some("photos".to_string()), "still in use".to_string());
    feed(&mut s, &mut m, Event::Refresh);
    assert_eq!(s.stage(), Stage::Regather);
    feed(&mut s, &mut m, Event::Gathered(Ok(snapshot())));
    assert_eq!(s.stage(), Stage::Serve);
    assert!(m.notice().is_some());

    feed(&mut s, &mut m, Event::Refresh);
    assert_eq!(
        feed(&mut s, &mut m, Event::Gathered(Err(LinkError::NotRunning))),
        Handle::Drop
    );
    assert_eq!(m.state(), TrayState::Disconnected);
    assert_eq!(m.mounts().len(), 0);
    assert_eq!(
        s.stage(),
        Stage::Pause {
            secs: 1,
            attached: true
        }
    );
}

#[test]
fn failures_wait_longer_each_time_and_a_refresh_starts_the_wait_over() {
    let mut s = Session::new();
    let mut m = TrayModel::new();
    for secs in [1, 2, 4, 8, 16, 32, 60, 60] {
        feed(&mut s, &mut m, Event::Connected(Err("no bus".to_string())));
        assert_eq!(
            s.stage(),
            Stage::Pause {
                secs,
                attached: false
            }
        );
        feed(&mut s, &mut m, Event::Elapsed);
        assert_eq!(s.stage(), Stage::Connect);
    }
    feed(&mut s, &mut m, Event::Connected(Err("no bus".to_string())));
    feed(&mut s, &mut m, Event::Refresh);
    feed(&mut s, &mut m, Event::Connected(Err("no bus".to_string())));
    assert_eq!(
        s.stage(),
        Stage::Pause {
            secs: 1,
            attached: false
        }
    );
}

#[test]
fn a_lost_bus_is_connected_to_again() {
    for lost in [Event::SignalsEnded, Event::OwnersEnded] {
        let (mut s, mut m) = attached();
        assert_eq!(feed(&mut s, &mut m, lost), Handle::Drop);
        assert_eq!(m.state(), TrayState::Disconnected);
        assert_eq!(m.mounts().len(), 0, "a stale list must not be shown as current");
        assert_eq!(
            s.stage(),
            Stage::Pause {
                secs: 1,
                attached: false
            }
        );
        feed(&mut s, &mut m, Event::Elapsed);
        assert_eq!(s.stage(), Stage::Connect);
    }
    let mut s = Session::new();
    let mut m = TrayModel::new();
    feed(&mut s, &mut m, Event::Connected(Ok(())));
    feed(&mut s, &mut m, Event::Followed(Err(failure())));
    assert_eq!(m.state(), TrayState::Disconnected);
    assert_eq!(
        s.stage(),
        Stage::Pause {
            secs: 1,
            attached: false
        }
    );
}
