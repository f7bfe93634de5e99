//! The supervisor's decisions, run against a machine made of plain values.

use vfsmount_tray::config::{Mount, UNIT_PREFIX};
use vfsmount_tray::errors::SupervisorError;
use vfsmount_tray::mountinfo::{is_mounted_at, parse, MountEntry};
use vfsmount_tray::rc::rc_socket_path;
use vfsmount_tray::supervisor::orphans::{
    candidate_points, orphan_name, resolve_path, Resolved, Sweep, Target,
};
use vfsmount_tray::supervisor::prepare::{
    clears_point, drops_lock, fusermount, fusermount_args, is_stale, not_created,
    prepare_for_start, prepare_mount_point, prepare_runtime_dir, second_lock, Exit, PathKind,
    ENOTCONN, RUNTIME_DIR_MODE,
};
use vfsmount_tray::supervisor::start::{
    mount_unconfigured, pre_start_hook, Plan, Start, StartAnswer, StartAsk, StartStep,
};
use vfsmount_tray::supervisor::state::{
    reconcile, resolve, state, DiscoveredMount, Facts, MountState, Verdict,
};
use vfsmount_tray::supervisor::targets::{mount_config, refuse_to_take_over, unmount_target};
use vfsmount_tray::supervisor::unmount::{
    refused, Answer, Ask, Release, Step, Timeouts, Unmount,
};
use vfsmount_tray::supervisor::waiting::{await_gone, await_ready, await_unit_gone, Wait};
use vfsmount_tray::systemd::{LoadedUnit, Serving, UnitSpec, UnitStatus};

const POINT: &str = "/scratch/mnt";
const RUN: &str = "/scratch/run";
const BACKUP_UNIT: &str = "rvt-mount-backup.service";

/// A service manager, a mount table and a file system, as far as the supervisor sees them.
struct World {
    config: Vec<Mount>,
    /// What is mounted where, and what serves it.
    table: Vec<(String, String)>,
    /// Units that answer for their own name.
    loaded: Vec<LoadedUnit>,
    /// What every other unit reports.
    status: UnitStatus,
    /// Where a symlink leads.
    links: Vec<(String, String)>,
    stale: Vec<String>,
    /// Points something holds a file open under.
    busy: Vec<String>,
    /// Whether stopping a unit also clears the table, as rclone does.
    releasing: bool,
    sockets: Vec<String>,
    started: Vec<UnitSpec>,
    stopped: Vec<String>,
    reset: Vec<String>,
    events: Vec<String>,
}

fn a_mount(name: &str, mount_point: &str) -> Mount {
    Mount {
        name: name.into(),
        remote: "backup".into(),
        path: "pictures".into(),
        mount_point: mount_point.into(),
    }
}

fn unit(name: &str, status: UnitStatus, serving: Option<(&str, &str)>) -> LoadedUnit {
    LoadedUnit {
        name: name.into(),
        status,
        serving: serving.map(|(fs_spec, point)| Serving {
            fs_spec: fs_spec.into(),
            mount_point: point.into(),
        }),
    }
}

fn world(config: Vec<Mount>, live: &[&str], status: UnitStatus) -> World {
    World {
        config,
        table: live
            .iter()
            .map(|p| (p.to_string(), "backup:pictures".to_string()))
            .collect(),
        loaded: Vec::new(),
        status,
        links: Vec::new(),
        stale: Vec::new(),
        busy: Vec::new(),
        releasing: false,
        sockets: Vec::new(),
        started: Vec::new(),
        stopped: Vec::new(),
        reset: Vec::new(),
        events: Vec::new(),
    }
}

/// `mounted` says whether the configured mount is in the table; `extra` adds mounts at paths
/// the configuration does not know.
fn supervisor(mounted: bool, extra: &[&str], status: UnitStatus) -> World {
    let mut live = Vec::new();
    if mounted {
        live.push(POINT);
    }
    live.extend_from_slice(extra);
    world(vec![a_mount("backup", POINT)], &live, status)
}

/// `backup` became `backups` in the configuration, and the old unit still serves the point.
fn renamed() -> World {
    let mut w = world(
        vec![a_mount("backups", POINT)],
        &[POINT],
        UnitStatus::Inactive,
    );
    w.loaded = vec![unit(
        BACKUP_UNIT,
        UnitStatus::Active,
        Some(("backup:pictures", POINT)),
    )];
    w
}

/// The mount point was edited while the mount was up: the unit serves the old one.
fn moved() -> World {
    let mut w = world(
        vec![a_mount("backup", "/scratch/moved-to")],
        &[POINT],
        UnitStatus::Inactive,
    );
    w.loaded = vec![unit(
        BACKUP_UNIT,
        UnitStatus::Active,
        Some(("backup:pictures", POINT)),
    )];
    w
}

const TIMEOUTS: Timeouts = Timeouts {
    ready_ms: 300,
    gone_ms: 300,
    unit_gone_ms: 300,
};

impl World {
    fn live(&self) -> Vec<MountEntry> {
        let mut s =
            String::from("28 1 259:2 / / rw,relatime shared:1 - ext4 /dev/nvme0n1p2 rw\n");
        for (i, (p, source)) in self.table.iter().enumerate() {
            s.push_str(&format!(
                "{} 28 0:5{} / {} rw,relatime shared:7{} - fuse.rclone {} rw\n",
                150 + i,
                i,
                p,
                i,
                source
            ));
        }
        parse(&s)
    }

    fn paths(&self) -> Vec<Resolved> {
        candidate_points(&self.loaded, &self.config)
            .into_iter()
            .chain(self.config.iter().map(|m| m.mount_point.clone()))
            .map(|raw| Resolved {
                real: self.real_path(&raw),
                raw,
            })
            .collect()
    }

    fn real_path(&self, raw: &str) -> String {
        match self.links.iter().find(|l| l.0 == raw) {
            Some(l) => l.1.clone(),
            None => raw.to_string(),
        }
    }

    fn orphans(&self) -> Vec<Target> {
        Sweep {
            loaded: self
                .loaded
                .iter()
                .filter(|u| u.name.starts_with(UNIT_PREFIX))
                .cloned()
                .collect(),
            mounts: self.config.clone(),
            live: self.live(),
            paths: self.paths(),
        }
        .orphans()
    }

    fn unit_status(&self, unit: &str) -> UnitStatus {
        match self.loaded.iter().find(|u| u.name == unit) {
            Some(u) => u.status,
            None => self.status,
        }
    }

    fn recent_output(&self) -> String {
        "rclone: couldn't connect: permission denied".to_string()
    }

    fn resolve(&self, m: &Mount, orphans: &Vec<Target>) -> MountState {
        let point = resolve_path(&self.paths(), &m.mount_point);
        let live = is_mounted_at(&self.live(), &point);
        let mut stale = None;
        let mut status = None;
        let mut said = None;
        loop {
            let facts = Facts {
                stale,
                status,
                said: said.clone(),
            };
            match resolve(m, &point, live, orphans, facts) {
                Verdict::AskStale => stale = Some(self.stale.contains(&point)),
                Verdict::AskStatus => status = Some(self.unit_status(&m.unit_name())),
                Verdict::AskOutput => said = Some(self.recent_output()),
                Verdict::State(s) => return s,
            }
        }
    }

    fn state(&self, name: &str) -> Result<MountState, SupervisorError> {
        let orphans = self.orphans();
        match mount_config(&self.config, name) {
            Ok(m) => Ok(self.resolve(m, &orphans)),
            Err(_) => state(name, &orphans),
        }
    }

    fn reconcile(&self) -> Vec<DiscoveredMount> {
        let orphans = self.orphans();
        let states = self
            .config
            .iter()
            .map(|m| self.resolve(m, &orphans))
            .collect();
        reconcile(
            &self.config,
            &states,
            &self.paths(),
            &orphans,
            &self.live(),
        )
    }

    fn release(&mut self, point: &str, how: Release) -> Result<(), SupervisorError> {
        self.events.push(format!("{how:?} {point}"));
        if self.busy.iter().any(|b| b == point) && how == Release::Refuse {
            return Err(SupervisorError::Busy {
                detail: format!(
                    "{point} could not be unmounted: fusermount3: failed to unmount {point}: \
                     Device or resource busy"
                ),
            });
        }
        self.table.retain(|e| e.0 != point);
        Ok(())
    }

    fn stop(&mut self, name: &str) {
        self.stopped.push(name.to_string());
        self.events.push(format!("stop {name}"));
        if self.releasing {
            self.table.clear();
        }
        match self.loaded.iter_mut().find(|u| u.name == name) {
            Some(u) => u.status = UnitStatus::Inactive,
            None => self.status = UnitStatus::Inactive,
        }
    }

    fn await_unit_gone(&self, name: &str, ms: u64) -> Result<(), SupervisorError> {
        for late in [false, true] {
            match await_unit_gone(name, ms, self.unit_status(name), late) {
                Wait::Over => return Ok(()),
                Wait::Failed(e) => return Err(e),
                _ => {}
            }
        }
        unreachable!("a wait ends when its time is up")
    }

    fn await_gone(&self, point: &str) -> bool {
        for late in [false, true] {
            if let Some(gone) = await_gone(is_mounted_at(&self.live(), point), late) {
                return gone;
            }
        }
        unreachable!("a wait ends when its time is up")
    }

    fn await_ready(&self, m: &Mount, ms: u64) -> Result<(), SupervisorError> {
        let point = resolve_path(&self.paths(), &m.mount_point);
        let mut status = None;
        let mut said = None;
        let mut late = false;
        loop {
            let mounted = is_mounted_at(&self.live(), &point);
            match await_ready(m, ms, mounted, status, late, said.clone()) {
                Wait::Over => return Ok(()),
                Wait::Failed(e) => return Err(e),
                Wait::Sleep => {
                    late = true;
                    status = None;
                }
                Wait::AskStatus => status = Some(self.unit_status(&m.unit_name())),
                Wait::AskOutput => said = Some(self.recent_output()),
            }
        }
    }

    fn mount(&mut self, name: &str) -> Result<(), SupervisorError> {
        let m = match mount_config(&self.config, name) {
            Ok(m) => m.clone(),
            Err(_) => return Err(mount_unconfigured(name, &self.orphans())),
        };
        let plan = Plan {
            mount: m.clone(),
            rclone: "/usr/bin/rclone".into(),
            options: vec!["--read-only".to_string()],
            socket: rc_socket_path(RUN, name),
            config_path: "/nonexistent/config.toml".into(),
            exe: Some("/usr/bin/trayd".into()),
            exe_is_file: true,
        };
        let mut start = Start::begin(plan, TIMEOUTS);
        for _ in 0..100 {
            let answer = match start.ask() {
                StartAsk::Orphans => StartAnswer::Orphans(Ok(self.orphans())),
                StartAsk::Resolve(raw) => StartAnswer::Path(self.real_path(&raw)),
                StartAsk::Mounts => StartAnswer::Mounts(self.live()),
                StartAsk::Stale(p) => StartAnswer::Stale(self.stale.contains(&p)),
                StartAsk::Status(u) => StartAnswer::Status(Ok(self.unit_status(&u))),
                StartAsk::Release(p, how) => StartAnswer::Done(self.release(&p, how)),
                StartAsk::AwaitUnitGone(u, ms) => {
                    StartAnswer::Done(self.await_unit_gone(&u, ms))
                }
                StartAsk::PreparePoint(_) => StartAnswer::Done(Ok(())),
                StartAsk::PrepareRuntime => StartAnswer::Done(Ok(())),
                StartAsk::ClearSocket(s) => {
                    self.sockets.retain(|x| *x != s);
                    StartAnswer::Done(Ok(()))
                }
                StartAsk::ResetFailed(u) => {
                    self.reset.push(u);
                    StartAnswer::Done(Ok(()))
                }
                StartAsk::Start(spec) => {
                    self.started.push(spec);
                    StartAnswer::Done(Ok(()))
                }
                StartAsk::AwaitReady(ms) => StartAnswer::Done(self.await_ready(&m, ms)),
            };
            match start.step(answer) {
                StartStep::Go(next) => start = next,
                StartStep::Finished(r) => return r,
            }
        }
        panic!("the start never ended")
    }

    fn unmount(&mut self, name: &str, force: bool) -> Result<(), SupervisorError> {
        let serving = match mount_config(&self.config, name) {
            Ok(m) => self.unit_status(&m.unit_name()).is_serving(),
            Err(_) => false,
        };
        let target = unmount_target(name, &self.config, &self.paths(), &self.orphans(), serving)?;
        let mut u = Unmount::begin(target, force, TIMEOUTS);
        for _ in 0..100 {
            let answer = match u.ask() {
                Ask::Mounts => Answer::Mounts(self.live()),
                Ask::Status(unit) => Answer::Status(Ok(self.unit_status(&unit))),
                Ask::ArgvPoint(unit) => Answer::ArgvPoint(Ok(self
                    .loaded
                    .iter()
                    .find(|l| l.name == unit)
                    .and_then(|l| l.serving.as_ref())
                    .map(|s| self.real_path(&s.mount_point)))),
                Ask::Release(p, how) => Answer::Done(self.release(&p, how)),
                Ask::Stop(unit) => {
                    self.stop(&unit);
                    Answer::Done(Ok(()))
                }
                Ask::AwaitGone(p, _) => Answer::Gone(self.await_gone(&p)),
                Ask::AwaitUnitGone(unit, ms) => Answer::Done(self.await_unit_gone(&unit, ms)),
                Ask::ResetFailed(unit) => {
                    self.reset.push(unit);
                    Answer::Done(Ok(()))
                }
            };
            match u.step(answer) {
                Step::Go(next) => u = next,
                Step::Finished(r) => return r,
            }
        }
        panic!("the unmount never ended")
    }
}

fn not_managed(r: Result<(), SupervisorError>) -> String {
    match r {
        Err(SupervisorError::NotManaged(why)) => why,
        other => panic!("expected NotManaged, got {other:?}"),
    }
}

#[test]
fn a_mount_we_started_is_ours() {
    let s = supervisor(true, &[], UnitStatus::Active);
    assert_eq!(s.state("backup"), Ok(MountState::Mounted));
}

#[test]
fn a_mount_with_no_unit_of_ours_is_foreign() {
    let s = supervisor(true, &[], UnitStatus::Inactive);
    assert_eq!(s.state("backup"), Ok(MountState::Foreign));
}

#[test]
fn nothing_mounted_is_unmounted_not_failed() {
    let s = supervisor(false, &[], UnitStatus::Inactive);
    assert_eq!(s.state("backup"), Ok(MountState::Unmounted));
}

#[test]
fn a_failed_unit_carries_rclones_own_words() {
    let s = supervisor(false, &[], UnitStatus::Failed);
    match s.state("backup").unwrap() {
        MountState::Failed { reason } => {
            assert!(reason.contains("permission denied"), "{reason}");
        }
        other => panic!("expected Failed, got {other:?}"),
    }
}

#[test]
fn mounting_something_already_up_is_a_no_op() {
    // The service restarting must not try to remount everything it finds.
    let mut s = supervisor(true, &[], UnitStatus::Active);
    s.mount("backup").unwrap();
    assert!(
        s.started.is_empty(),
        "an already-serving mount must not be started again"
    );
}

#[test]
fn a_mount_that_never_appears_reports_why() {
    let mut s = supervisor(false, &[], UnitStatus::Inactive);
    match s.mount("backup") {
        Err(SupervisorError::RcloneFailed { reason, .. }) => {
            assert!(reason.contains("permission denied"), "{reason}");
            assert_eq!(
                reason,
                "/scratch/mnt did not start serving within 0s. \
                 rclone: couldn't connect: permission denied"
            );
        }
        other => panic!("expected RcloneFailed, got {other:?}"),
    }
    // The unit must be reset first, or a second attempt could never start.
    assert_eq!(s.reset, [BACKUP_UNIT]);
}

#[test]
fn the_rc_socket_is_protected_by_its_directory_not_by_the_units_umask() {
    let mut s = supervisor(false, &[], UnitStatus::Inactive);
    let _ = s.mount("backup");
    let spec = s.started.first().expect("a unit should have been started");
    assert_eq!(
        spec.umask, 0o022,
        "an ordinary umask, or files inside the mount become unreadable"
    );
    assert!(spec.args.iter().any(|a| a.starts_with("unix://")));
    assert_eq!(
        RUNTIME_DIR_MODE, 0o700,
        "the rc socket directory must not be traversable by anyone else"
    );
    assert_eq!(spec.name, BACKUP_UNIT);
    assert_eq!(
        spec.description,
        "rclone mount backup:pictures at /scratch/mnt"
    );
    assert_eq!(spec.executable, "/usr/bin/rclone");
    assert_eq!(
        spec.args,
        [
            "mount",
            "backup:pictures",
            POINT,
            "--rc",
            "--rc-addr",
            "unix:///scratch/run/backup.sock",
            "--rc-no-auth",
            "--read-only"
        ]
    );
}

#[test]
fn unmounting_something_already_down_is_a_no_op() {
    let mut s = supervisor(false, &[], UnitStatus::Inactive);
    s.unmount("backup", false).unwrap();
    assert!(s.stopped.is_empty());
}

#[test]
fn a_foreign_mount_is_not_unmounted_without_force() {
    let mut s = supervisor(true, &[], UnitStatus::Inactive);
    assert_eq!(not_managed(s.unmount("backup", false)), "backup");
    assert!(s.stopped.is_empty(), "nothing should have been stopped");
}

#[test]
fn unmounting_a_mount_we_started_stops_its_unit() {
    let mut s = supervisor(true, &[], UnitStatus::Active);
    s.releasing = true;
    s.unmount("backup", false).expect("our own mount");
    assert_eq!(s.stopped, [BACKUP_UNIT], "the unit must actually be stopped");
}

#[test]
fn a_unit_running_without_ever_serving_can_still_be_stopped() {
    let mut s = supervisor(false, &[], UnitStatus::Activating);
    s.unmount("backup", false)
        .expect("a running unit of ours must be stoppable even with nothing mounted");
    assert_eq!(s.stopped, [BACKUP_UNIT]);
    // and cleared, or the name cannot be reused
    assert_eq!(s.reset, [BACKUP_UNIT]);
}

#[test]
fn a_failed_unit_is_stopped_and_cleared_so_the_mount_can_be_retried() {
    let mut s = supervisor(false, &[], UnitStatus::Failed);
    s.unmount("backup", false).expect("a failed unit is ours");
    assert!(!s.stopped.is_empty());
    assert!(!s.reset.is_empty());
}

#[test]
fn a_mount_being_torn_down_is_not_reported_as_somebody_elses() {
    let s = supervisor(true, &[], UnitStatus::Deactivating);
    assert_eq!(s.state("backup"), Ok(MountState::Unmounting));
}

#[test]
fn our_own_crashed_mount_stays_ours() {
    let s = supervisor(true, &[], UnitStatus::Failed);
    match s.state("backup").unwrap() {
        MountState::Failed { .. } => {}
        other => panic!("a failed unit of ours must not read as Foreign, got {other:?}"),
    }
}

#[test]
fn a_started_unit_with_nothing_mounted_yet_is_coming_up() {
    let s = supervisor(false, &[], UnitStatus::Active);
    assert_eq!(s.state("backup"), Ok(MountState::Mounting));
}

#[test]
fn a_mount_with_a_file_open_is_refused_before_anything_signals_rclone() {
    let mut s = supervisor(true, &[], UnitStatus::Active);
    s.busy.push(POINT.into());

    match s.unmount("backup", false) {
        Err(SupervisorError::Busy { detail }) => {
            assert!(
                detail.contains("still using the mount"),
                "unhelpful: {detail}"
            );
            assert!(
                detail.starts_with(POINT),
                "rendered verbatim, so it has to open with the path: {detail}"
            );
            assert!(
                !detail.contains("close that"),
                "a cwd inside the mount is enough to be refused, so do not say \
                 'close the file': {detail}"
            );
        }
        other => panic!("a busy mount must be refused, got {other:?}"),
    }

    assert!(
        s.stopped.is_empty(),
        "the unit must not be stopped: the SIGTERM is what truncates the file"
    );
    assert_eq!(
        s.events,
        [format!("Refuse {POINT}")],
        "the kernel must be asked, and nothing else may happen after it says no"
    );
    assert!(
        is_mounted_at(&s.live(), POINT),
        "a refusal must leave the mount exactly as it was"
    );
}

#[test]
fn a_refusal_hedges_its_cause_and_a_spawn_failure_is_passed_through() {
    let point = "/mnt/backup";

    let hedged = refused(
        point,
        SupervisorError::Busy {
            detail: "/mnt/backup could not be unmounted: fusermount3: failed to \
                     unmount /mnt/backup: Device or resource busy"
                .into(),
        },
    );
    let SupervisorError::Busy { detail: msg } = hedged else {
        panic!("a refusal stays one, got {hedged:?}")
    };
    assert!(
        msg.starts_with("/mnt/backup could not be unmounted"),
        "{msg}"
    );
    assert!(msg.contains("Usually"), "must hedge, not assert: {msg}");
    // Rendered verbatim, so it reads as one sentence rather than a sentence quoted
    // inside another. Both of these are what a wrapper around it would add.
    assert!(!msg.contains('"'), "no nested quoting: {msg}");
    assert!(msg.ends_with('.'), "must end as a sentence does: {msg}");

    let spawn = refused(
        point,
        SupervisorError::Supervision {
            context: "running fusermount for /mnt/backup".into(),
            source: None,
        },
    );
    let SupervisorError::Supervision { context, .. } = spawn else {
        panic!("a missing helper is not a busy mount, got {spawn:?}")
    };
    assert!(
        !context.contains("file open"),
        "no advice about closing files when nothing was asked: {context}"
    );
}

#[test]
fn an_idle_mount_is_released_before_its_unit_is_stopped() {
    let mut s = supervisor(true, &[], UnitStatus::Active);
    s.releasing = true;
    s.unmount("backup", false).expect("nothing holds it");
    assert_eq!(
        s.events,
        [
            format!("Refuse {POINT}"),
            "stop rvt-mount-backup.service".to_string(),
        ],
        "the release must come first, or the refusal can never happen"
    );
}

#[test]
fn force_detaches_a_busy_mount_because_plain_unmount_stays_refused() {
    let mut s = supervisor(true, &[], UnitStatus::Active);
    s.busy.push(POINT.into());

    s.unmount("backup", true)
        .expect("force must actually bring the mount down");

    assert_eq!(
        s.events,
        [
            // Refused, with nothing signalled yet.
            format!("Refuse {POINT}"),
            // Overridden: rclone is signalled and the writer is severed.
            "stop rvt-mount-backup.service".to_string(),
            // Still refused — the holder, not rclone, is what pins it.
            format!("Refuse {POINT}"),
            // Only this takes it, and only because there is no longer a live writer
            // for it to detach from.
            format!("Detach {POINT}"),
        ],
        "force must escalate all the way, and only at the end"
    );
    assert!(
        !is_mounted_at(&s.live(), POINT),
        "the point must actually be gone once force has run"
    );
    assert_eq!(
        s.reset,
        [BACKUP_UNIT],
        "the unit name must be reusable afterwards"
    );
}

#[test]
fn nothing_is_ever_detached_without_force() {
    let mut s = supervisor(true, &[], UnitStatus::Active);
    s.busy.push(POINT.into());
    let _ = s.unmount("backup", false);
    assert!(
        !s.events.iter().any(|e| e.starts_with("Detach")),
        "a non-forced unmount must never detach: {:?}",
        s.events
    );
}

#[test]
fn force_never_detaches_a_mount_whose_unit_was_not_stopped() {
    let mut s = supervisor(true, &[], UnitStatus::Inactive);
    s.busy.push(POINT.into());

    let e = s
        .unmount("backup", true)
        .expect_err("a held foreign mount cannot be taken without stranding its rclone");
    assert!(matches!(e, SupervisorError::Busy { .. }), "{e:?}");

    assert!(s.stopped.is_empty(), "a foreign unit is not ours to stop");
    assert_eq!(
        s.events,
        // Once. Knowing up front that detaching is not on the table, there is nothing
        // a second identical call could learn.
        [format!("Refuse {POINT}")],
        "it must try, and stop at trying — no Detach without a stop of our own"
    );
}

#[test]
fn force_actually_attempts_to_release_a_foreign_mount() {
    let mut s = supervisor(true, &[], UnitStatus::Inactive);
    s.unmount("backup", true)
        .expect("force must release a foreign mount");
    assert_eq!(
        s.events,
        [format!("Refuse {POINT}")],
        "force must reach the kernel, and must not stop a unit that is not ours"
    );
}

#[test]
fn a_socket_path_never_escapes_the_runtime_directory() {
    for name in ["/srv/media", "/", "../../etc/passwd", "a/b"] {
        let p = rc_socket_path(RUN, name);
        assert!(
            std::path::Path::new(&p).starts_with(RUN),
            "{name:?} produced {p:?}, outside {RUN:?}"
        );
    }
    // The ordinary case is untouched.
    assert_eq!(
        rc_socket_path(RUN, "backup"),
        format!("{RUN}/backup.sock"),
        "a configured name must keep the path it has always had"
    );
}

#[test]
fn a_stale_socket_is_cleared_when_the_unit_died() {
    let mut s = supervisor(false, &[], UnitStatus::Failed);
    s.sockets.push(rc_socket_path(RUN, "backup"));
    let _ = s.mount("backup");
    assert!(
        s.sockets.is_empty(),
        "a socket left by a dead rclone must be removed before restarting it"
    );
}

#[test]
fn a_second_mount_while_one_is_coming_up_does_not_error() {
    let mut s = supervisor(false, &[], UnitStatus::Activating);
    s.sockets.push(rc_socket_path(RUN, "backup"));
    let e = s.mount("backup").expect_err("nothing ever mounts here");
    assert!(
        !matches!(e, SupervisorError::Supervision { .. }),
        "a unit already coming up must not surface as an init-system error: {e:?}"
    );
    assert!(
        s.started.is_empty(),
        "it must not try to start a second unit under the same name"
    );
    assert!(
        !s.sockets.is_empty(),
        "a live rclone's socket must not be unlinked by a second mount attempt"
    );
}

#[test]
fn a_symlinked_mount_point_is_matched_against_the_resolved_path() {
    let mut s = world(
        vec![a_mount("backup", "/scratch/link")],
        &["/scratch/real"],
        UnitStatus::Active,
    );
    s.links.push(("/scratch/link".into(), "/scratch/real".into()));
    assert_eq!(
        s.state("backup"),
        Ok(MountState::Mounted),
        "the mount is up at the resolved path and must be recognised"
    );
}

#[test]
fn a_mount_point_that_no_longer_responds_is_reported_as_failed() {
    let mut s = supervisor(true, &[], UnitStatus::Inactive);
    s.stale.push(POINT.into());
    match s.state("backup").unwrap() {
        MountState::Failed { reason } => {
            assert!(reason.contains("not responding"), "{reason}");
        }
        other => panic!("a dead mount point must not read as {other:?}"),
    }
}

#[test]
fn mounting_over_a_dead_mount_point_clears_it_first() {
    let mut s = supervisor(true, &[], UnitStatus::Inactive);
    s.stale.push(POINT.into());
    let _ = s.mount("backup");
    assert_eq!(s.events, [format!("Refuse {POINT}")]);
    assert_eq!(s.started.len(), 1);

    // A point that will not be released is passed on as it came.
    let mut s = supervisor(true, &[], UnitStatus::Inactive);
    s.stale.push(POINT.into());
    s.busy.push(POINT.into());
    match s.mount("backup") {
        Err(SupervisorError::Busy { detail }) => {
            assert!(detail.ends_with("Device or resource busy"), "{detail}");
        }
        other => panic!("expected the refusal, got {other:?}"),
    }
}

#[test]
fn mounting_waits_out_a_unit_that_is_still_stopping() {
    let mut s = supervisor(false, &[], UnitStatus::Deactivating);
    let e = s.mount("backup").expect_err("the unit never settles");
    match e {
        SupervisorError::Supervision { context, .. } => assert!(
            context.contains("still shutting down"),
            "it must wait for the name, not collide with it: {context}"
        ),
        other => panic!("expected a wait-then-give-up, got {other:?}"),
    }
    assert!(
        s.started.is_empty(),
        "nothing may be started while the old unit still holds the name"
    );
}

#[test]
fn a_failed_unit_ends_the_wait_instead_of_burning_the_timeout() {
    let m = a_mount("backup", POINT);
    let said = Some("no such remote".to_string());
    assert!(matches!(
        await_ready(&m, 20_000, false, None, false, None),
        Wait::AskStatus
    ));
    assert!(matches!(
        await_ready(&m, 20_000, false, Some(UnitStatus::Failed), false, None),
        Wait::AskOutput
    ));
    match await_ready(&m, 20_000, false, Some(UnitStatus::Failed), false, said) {
        Wait::Failed(SupervisorError::RcloneFailed { reason, source }) => {
            assert_eq!(reason, "no such remote");
            assert_eq!(source, None);
        }
        _ => panic!("a unit that has already failed will never become ready"),
    }
    assert!(matches!(
        await_ready(&m, 20_000, false, Some(UnitStatus::Activating), false, None),
        Wait::Sleep
    ));
}

#[test]
fn unmount_refuses_a_path_serving_a_different_remote() {
    let mut m = a_mount("backup", POINT);
    m.remote = "somethingelse".into();
    let mut s = world(vec![m], &[POINT], UnitStatus::Active);
    let why = not_managed(s.unmount("backup", false));
    assert!(why.contains("is serving"), "{why}");
    assert_eq!(
        why,
        "backup: /scratch/mnt is serving backup:pictures, not somethingelse:pictures — \
         refusing to unmount something this mount does not own"
    );
    assert!(
        s.stopped.is_empty(),
        "a refusal must leave the system as it found it"
    );
}

#[test]
fn mounting_over_somebody_elses_mount_is_refused() {
    let mut s = supervisor(true, &[], UnitStatus::Inactive);
    let why = not_managed(s.mount("backup"));
    assert!(why.contains("did not start"), "{why}");
    assert!(
        s.started.is_empty(),
        "no unit may be started onto an occupied mount point"
    );
}

#[test]
fn mounting_does_not_report_success_onto_a_mount_being_torn_down() {
    let mut s = supervisor(true, &[], UnitStatus::Deactivating);
    match s.mount("backup") {
        Err(SupervisorError::Supervision { context, .. }) => assert!(
            context.contains("still shutting down"),
            "it must wait for the teardown, not claim success: {context}"
        ),
        other => panic!("expected a wait, got {other:?}"),
    }
}

#[test]
fn force_overrides_a_source_mismatch_as_well_as_the_refusal() {
    let mut m = a_mount("backup", POINT);
    m.remote = "somethingelse".into();
    let mut s = world(vec![m], &[POINT], UnitStatus::Inactive);
    s.unmount("backup", true)
        .expect("force must override the source mismatch, not just the ownership one");
    assert_eq!(
        s.events,
        [format!("Refuse {POINT}")],
        "the release must have been attempted despite the mismatch"
    );
}

#[test]
fn the_started_unit_carries_a_recovery_hook_the_binary_understands() {
    let mut s = supervisor(false, &[], UnitStatus::Inactive);
    let _ = s.mount("backup");
    let spec = s.started.first().expect("a unit should have been started");
    let (bin, args) = spec
        .pre_start
        .as_ref()
        .expect("every mount unit needs the recovery hook");
    assert_eq!(bin, "/usr/bin/trayd");
    assert_eq!(
        args,
        &[
            "--config",
            "/nonexistent/config.toml",
            "prepare-mount",
            "--name",
            "backup"
        ],
        "the hook must be told which config the service actually loaded, and \
         `--config` is not a global argument so it has to precede the subcommand"
    );
    // A binary that cannot be run again is no hook.
    assert_eq!(pre_start_hook(None, false, "/c", "backup"), None);
    assert_eq!(pre_start_hook(Some("/bin/t"), false, "/c", "backup"), None);
    assert_eq!(
        pre_start_hook(Some("/bin/t (deleted)"), true, "/c", "backup"),
        None
    );
}

#[test]
fn the_recovery_hook_clears_a_stale_socket() {
    let left = prepare_for_start(&vec![a_mount("backup", POINT)], RUN, "backup").unwrap();
    assert_eq!(left.socket, "/scratch/run/backup.sock");
    assert_eq!(left.mount_point, POINT);
}

#[test]
fn the_recovery_hook_leaves_a_live_mount_alone() {
    let s = supervisor(true, &[], UnitStatus::Inactive);
    assert!(!clears_point(&s.live(), POINT, false));
    assert!(clears_point(&s.live(), POINT, true));
    assert!(!clears_point(&Vec::new(), POINT, true));
}

#[test]
fn the_recovery_hook_names_a_mount_it_does_not_know() {
    match prepare_for_start(&vec![a_mount("backup", POINT)], RUN, "nope") {
        Err(SupervisorError::UnknownMount(n)) => assert_eq!(n, "nope"),
        _ => panic!("expected UnknownMount"),
    }
}

#[test]
fn reconcile_reports_configured_and_foreign_mounts() {
    let other = "/tmp/somebody-elses";
    let s = supervisor(true, &[other], UnitStatus::Active);
    let found = s.reconcile();
    assert_eq!(found.len(), 2, "{found:?}");
    assert_eq!(found[0].name, "backup");
    assert_eq!(found[0].state, MountState::Mounted);
    // The unconfigured one is reported rather than ignored, and named by its full
    // path so it cannot collide with a configured name or another foreign mount.
    assert_eq!(found[1].name, other);
    assert_eq!(found[1].state, MountState::Foreign);
}

#[test]
fn a_configured_mount_that_is_down_is_still_listed() {
    let s = supervisor(false, &[], UnitStatus::Inactive);
    let found = s.reconcile();
    assert_eq!(found.len(), 1);
    assert_eq!(found[0].state, MountState::Unmounted);
}

#[test]
fn an_unknown_mount_is_named_in_the_error() {
    let s = supervisor(false, &[], UnitStatus::Inactive);
    assert_eq!(
        s.state("nope"),
        Err(SupervisorError::UnknownMount("nope".into()))
    );
}

#[test]
fn a_moved_mount_point_does_not_report_itself_mounting_forever() {
    match moved().state("backup").unwrap() {
        MountState::Failed { reason } => {
            assert!(
                reason.contains(POINT),
                "the reason has to name the path still being served: {reason}"
            );
        }
        other => panic!("a mount whose unit serves elsewhere is not coming up, got {other:?}"),
    }
}

#[test]
fn a_moved_mount_point_is_listed_once_and_as_ours() {
    let found = moved().reconcile();
    assert!(
        !found.iter().any(|m| m.state == MountState::Foreign),
        "the unit holding it is ours: {found:?}"
    );
    assert_eq!(
        found.iter().filter(|m| m.name == "backup").count(),
        1,
        "one name cannot carry two rows and two states: {found:?}"
    );
}

#[test]
fn unmounting_after_a_move_releases_the_path_the_unit_actually_holds() {
    let mut s = moved();
    s.releasing = true;
    s.unmount("backup", false)
        .expect("the unit is ours, wherever it mounted");
    assert_eq!(
        s.events,
        [
            format!("Refuse {POINT}"),
            "stop rvt-mount-backup.service".to_string(),
        ],
        "releasing the configured path would clear nothing and report success"
    );
}

#[test]
fn mounting_after_a_move_says_what_is_in_the_way() {
    let msg = not_managed(moved().mount("backup"));
    assert!(
        msg.contains(POINT),
        "the refusal has to name the path in the way: {msg}"
    );
}

#[test]
fn respelling_a_mount_point_through_a_symlink_has_not_moved_it() {
    let mut s = world(
        vec![a_mount("backup", "/scratch/real")],
        &["/scratch/real"],
        UnitStatus::Inactive,
    );
    s.links.push(("/scratch/link".into(), "/scratch/real".into()));
    // Started against the symlink; the configuration spells the same directory directly.
    s.loaded = vec![unit(
        BACKUP_UNIT,
        UnitStatus::Active,
        Some(("backup:pictures", "/scratch/link")),
    )];
    assert_eq!(
        s.state("backup"),
        Ok(MountState::Mounted),
        "the unit is serving the directory the config names, spelled differently"
    );
    s.mount("backup")
        .expect("a mount already up must not be refused as being in its own way");
}

#[test]
fn a_unit_whose_argv_cannot_be_read_still_vouches_for_its_point() {
    let mut s = renamed();
    s.loaded.push(unit(
        "rvt-mount-backups.service",
        UnitStatus::Active,
        None,
    ));
    let found = s.reconcile();
    assert!(
        !found.iter().any(|m| m.state == MountState::Orphaned),
        "the configured unit may be the one holding it: {found:?}"
    );
    assert_eq!(s.state("backups"), Ok(MountState::Mounted));
}

#[test]
fn mounts_that_swapped_their_points_do_not_vouch_for_each_other() {
    let (one, two) = ("/scratch/one", "/scratch/two");
    let mut s = world(
        vec![a_mount("a", two), a_mount("b", one)],
        &[one, two],
        UnitStatus::Inactive,
    );
    // Each unit still serves where it started; the configuration now says the other path.
    s.loaded = vec![
        unit(
            "rvt-mount-a.service",
            UnitStatus::Active,
            Some(("backup:pictures", one)),
        ),
        unit(
            "rvt-mount-b.service",
            UnitStatus::Active,
            Some(("backup:pictures", two)),
        ),
    ];
    for name in ["a", "b"] {
        match s.state(name).unwrap() {
            MountState::Failed { .. } => {}
            other => panic!("{name} is not where its config says, got {other:?}"),
        }
    }
}

#[test]
fn a_renamed_mount_does_not_read_as_somebody_elses() {
    match renamed().state("backups").unwrap() {
        MountState::Failed { reason } => assert!(
            reason.contains(BACKUP_UNIT),
            "the reason has to name the unit in the way: {reason}"
        ),
        other => panic!("a mount of ours must not read as Foreign, got {other:?}"),
    }
}

#[test]
fn the_unit_a_rename_left_behind_is_reported_as_ours() {
    let found = renamed().reconcile();
    assert_eq!(found.len(), 2, "{found:?}");
    let orphan = found
        .iter()
        .find(|m| m.name == "backup")
        .unwrap_or_else(|| panic!("the old unit must be listed: {found:?}"));
    assert_eq!(orphan.state, MountState::Orphaned);
    assert!(
        !found.iter().any(|m| m.state == MountState::Foreign),
        "the point is held by a unit of ours: listing it as foreign too would put \
         the same mount in the list twice, under two owners: {found:?}"
    );
}

#[test]
fn an_orphan_can_be_polled_under_the_name_its_unit_runs_as() {
    assert_eq!(renamed().state("backup"), Ok(MountState::Orphaned));
}

#[test]
fn unmounting_an_orphan_stops_its_unit() {
    let mut s = renamed();
    s.releasing = true;
    s.unmount("backup", false)
        .expect("an orphan is ours to stop");
    assert_eq!(s.stopped, [BACKUP_UNIT]);
}

#[test]
fn unmounting_under_the_new_name_stops_the_unit_holding_the_point() {
    let mut s = renamed();
    s.releasing = true;
    s.unmount("backups", false)
        .expect("the point is held by a unit of ours, so no force is needed");
    assert_eq!(
        s.stopped,
        [BACKUP_UNIT],
        "the unit that owns the point is what has to be stopped"
    );
    assert_eq!(
        s.events,
        [
            format!("Refuse {POINT}"),
            "stop rvt-mount-backup.service".to_string(),
        ],
        "an orphan comes down the same way any mount of ours does: kernel first"
    );
}

#[test]
fn forcing_a_busy_orphan_reaches_the_same_escalation_as_any_mount_of_ours() {
    let mut s = renamed();
    s.busy.push(POINT.into());
    s.unmount("backups", true)
        .expect("force must bring down a busy mount of ours, orphan or not");
    assert_eq!(
        s.events,
        [
            format!("Refuse {POINT}"),
            "stop rvt-mount-backup.service".to_string(),
            format!("Refuse {POINT}"),
            format!("Detach {POINT}"),
        ],
        "the unit must be stopped before the detach, exactly as for a configured mount"
    );
}

#[test]
fn mounting_over_a_stale_orphan_does_not_release_its_point() {
    let mut s = renamed();
    s.stale.push(POINT.into());
    let msg = not_managed(s.mount("backups"));
    assert!(
        msg.contains(BACKUP_UNIT),
        "the refusal has to name the unit holding it: {msg}"
    );
    assert!(
        s.events.is_empty(),
        "a point one of our units owns must not be released out from under it: {:?}",
        s.events
    );
    assert!(s.started.is_empty());
}

#[test]
fn a_redirected_unmount_waits_for_the_lock_on_the_unit_it_stops() {
    let s = renamed();
    let redirected =
        unmount_target("backups", &s.config, &s.paths(), &s.orphans(), false).unwrap();
    assert_eq!(second_lock("backups", &redirected).as_deref(), Some("backup"));
    let own = unmount_target("backup", &s.config, &s.paths(), &s.orphans(), false).unwrap();
    assert_eq!(second_lock("backup", &own), None);
}

#[test]
fn mounting_an_orphan_says_what_it_is_rather_than_denying_it_exists() {
    let mut s = renamed();
    let msg = not_managed(s.mount("backup"));
    assert!(
        msg.contains(BACKUP_UNIT) && msg.contains("leftover"),
        "{msg}"
    );
    assert!(s.started.is_empty());
    assert_eq!(
        s.mount("nope"),
        Err(SupervisorError::UnknownMount("nope".into()))
    );
}

#[test]
fn mounting_over_an_orphan_names_the_unit_in_the_way() {
    let mut s = renamed();
    let msg = not_managed(s.mount("backups"));
    assert!(
        msg.contains(BACKUP_UNIT),
        "the user cannot act on a refusal that does not say what is there: {msg}"
    );
    assert_eq!(
        refuse_to_take_over("backups", POINT, &s.orphans()),
        Err(SupervisorError::NotManaged(
            "backups: /scratch/mnt is still held by rvt-mount-backup.service, left over from a \
             mount this config no longer names. Unmount \"backup\" first."
                .into()
        ))
    );
    assert_eq!(
        refuse_to_take_over("backups", "/elsewhere", &s.orphans()),
        Ok(())
    );
}

#[test]
fn a_dead_unit_does_not_inherit_the_mount_that_replaced_it() {
    let mut s = renamed();
    // The new unit is up and serving, and the old one is a failed leftover that still
    // names the same path.
    s.loaded = vec![
        unit(
            BACKUP_UNIT,
            UnitStatus::Failed,
            Some(("backup:pictures", POINT)),
        ),
        unit(
            "rvt-mount-backups.service",
            UnitStatus::Active,
            Some(("backup:pictures", POINT)),
        ),
    ];
    let found = s.reconcile();
    assert_eq!(
        found.len(),
        1,
        "one mount point must not be listed twice, under two owners: {found:?}"
    );
    assert_eq!(found[0].name, "backups");
    assert_eq!(found[0].state, MountState::Mounted);

    // The idempotent path a service restart takes: already up, and ours.
    s.mount("backups")
        .expect("a mount already serving under its own unit is already mounted");

    assert_eq!(
        s.unmount("backup", false),
        Err(SupervisorError::UnknownMount("backup".into()))
    );
    assert!(
        s.events.is_empty(),
        "the live mount must not have been touched: {:?}",
        s.events
    );
}

#[test]
fn a_unit_awaiting_restart_does_not_claim_the_mount_that_replaced_it() {
    let mut s = renamed();
    s.loaded[0].status = UnitStatus::Activating;
    s.loaded.push(unit(
        "rvt-mount-backups.service",
        UnitStatus::Active,
        Some(("backup:pictures", POINT)),
    ));
    let found = s.reconcile();
    assert_eq!(
        found.len(),
        1,
        "the mount belongs to the configured unit serving it: {found:?}"
    );
    assert_eq!(found[0].state, MountState::Mounted);
    assert_eq!(
        s.unmount("backup", false),
        Err(SupervisorError::UnknownMount("backup".into()))
    );
    assert!(
        s.events.is_empty(),
        "the live mount was touched: {:?}",
        s.events
    );
}

#[test]
fn an_unmount_of_a_name_that_resolves_to_nothing_leaves_no_lock() {
    let mut s = supervisor(false, &[], UnitStatus::Inactive);
    for n in ["typo", "another", "third"] {
        let e = s.unmount(n, false).expect_err("nothing goes by that name");
        assert_eq!(e, SupervisorError::UnknownMount(n.into()));
        assert!(drops_lock(&e, 2));
        assert!(!drops_lock(&e, 3), "somebody is queued on it");
    }
    assert!(!drops_lock(&SupervisorError::NotManaged("backup".into()), 2));
}

#[test]
fn an_orphan_is_found_when_rclone_rewrote_the_source() {
    let mut s = renamed();
    // What the unit was told to mount. The table says `backup:pictures`, as rclone does
    // after resolving an alias.
    s.loaded[0] = unit(BACKUP_UNIT, UnitStatus::Active, Some(("ali:", POINT)));
    let found = s.reconcile();
    assert!(
        found
            .iter()
            .any(|m| m.name == "backup" && m.state == MountState::Orphaned),
        "an alias remote's mount is still ours: {found:?}"
    );
}

#[test]
fn a_dead_units_argv_does_not_vouch_for_a_strangers_mount() {
    let mut s = renamed();
    // The user's own `rclone mount gdrive:docs`, by hand, at the same path.
    s.table = vec![(POINT.into(), "gdrive:docs".into())];
    s.loaded[0] = unit(
        "rvt-mount-backups.service",
        UnitStatus::Failed,
        Some(("backup:pictures", POINT)),
    );
    let msg = not_managed(s.unmount("backups", false));
    assert!(
        msg.contains("gdrive:docs"),
        "the refusal has to say what is actually there: {msg}"
    );
    assert!(
        s.events.is_empty(),
        "nothing may be released: {:?}",
        s.events
    );
}

#[test]
fn a_rewritten_source_does_not_refuse_the_unmount_of_a_unit_that_owns_the_point() {
    for (case, name, addressed) in [
        ("alias-orphan", "rvt-mount-backup.service", "backup"),
        ("alias-configured", "rvt-mount-backups.service", "backups"),
    ] {
        let mut s = renamed();
        s.releasing = true;
        s.loaded[0] = unit(name, UnitStatus::Active, Some(("ali:", POINT)));
        s.unmount(addressed, false)
            .unwrap_or_else(|e| panic!("{case}: the unit's argv names this point: {e:?}"));
        assert_eq!(s.stopped, [name], "{case}");
    }
}

#[test]
fn a_unit_awaiting_restart_claims_nothing_at_all() {
    let other = "/tmp/somebody-elses";
    let mut s = supervisor(true, &[other], UnitStatus::Active);
    s.loaded.push(unit(
        "rvt-mount-elsewhere.service",
        UnitStatus::Activating,
        Some(("backup:pictures", other)),
    ));
    let found = s.reconcile();
    assert!(
        !found.iter().any(|m| m.state == MountState::Orphaned),
        "a unit between rclones is serving nothing: {found:?}"
    );
    assert!(
        found
            .iter()
            .any(|m| m.name == other && m.state == MountState::Foreign),
        "and whatever is actually there is still reported: {found:?}"
    );
}

#[test]
fn a_dead_unit_does_not_claim_a_mount_nothing_of_ours_serves() {
    let mut s = renamed();
    s.loaded[0].status = UnitStatus::Failed;
    let found = s.reconcile();
    assert!(
        !found.iter().any(|m| m.state == MountState::Orphaned),
        "a failed unit serves nothing: {found:?}"
    );
    assert_eq!(s.state("backups"), Ok(MountState::Foreign));
    assert_eq!(
        s.unmount("backup", true),
        Err(SupervisorError::UnknownMount("backup".into()))
    );
}

#[test]
fn a_failed_unit_under_the_new_name_does_not_capture_the_unmount() {
    let mut s = renamed();
    s.releasing = true;
    s.loaded.push(unit(
        "rvt-mount-backups.service",
        UnitStatus::Failed,
        None,
    ));
    s.unmount("backups", false)
        .expect("the orphan still holds the point");
    assert_eq!(
        s.stopped,
        [BACKUP_UNIT],
        "stopping the dead unit under the new name releases the orphan's live mount \
         and leaves the orphan running"
    );
}

#[test]
fn a_loaded_unit_serving_nothing_is_not_an_orphan() {
    let mut s = renamed();
    s.loaded.push(unit(
        "rvt-mount-gone.service",
        UnitStatus::Failed,
        Some(("backup:gone", "/tmp/never-mounted")),
    ));
    s.loaded.push(unit(
        "rvt-mount-opaque.service",
        UnitStatus::Active,
        None,
    ));
    let found = s.reconcile();
    assert!(
        !found.iter().any(|m| m.name == "gone" || m.name == "opaque"),
        "{found:?}"
    );
}

#[test]
fn a_unit_name_maps_back_to_the_mount_it_was_started_for() {
    assert_eq!(
        orphan_name("rvt-mount-backup.service").as_deref(),
        Some("backup")
    );
    // Round trip, since this is what addresses the unit afterwards.
    assert_eq!(
        a_mount("my.mount_1-a", "/mnt").unit_name(),
        "rvt-mount-my.mount_1-a.service"
    );
    assert_eq!(
        orphan_name("rvt-mount-my.mount_1-a.service").as_deref(),
        Some("my.mount_1-a")
    );
    for not_ours in [
        "rclone-backup.service",
        "rvt-mount-.service",
        "rvt-mount-backup.mount",
        "rvt-mount-backup",
        // No mount may go by these names, so nothing of ours is named this.
        "rvt-mount-..service",
        "rvt-mount-...service",
    ] {
        assert_eq!(orphan_name(not_ours), None, "{not_ours}");
    }
}

#[test]
fn a_point_left_mounted_by_everything_is_reported_as_such() {
    // Every release succeeds and the path is still mounted: two mounts, one on the other.
    let target = Target {
        name: "backup".into(),
        unit: BACKUP_UNIT.into(),
        point: POINT.into(),
        fs_spec: "backup:pictures".into(),
    };
    let s = supervisor(true, &[], UnitStatus::Active);
    let mut u = Unmount::begin(target, true, TIMEOUTS);
    let end = loop {
        let answer = match u.ask() {
            Ask::Mounts => Answer::Mounts(s.live()),
            Ask::Status(_) => Answer::Status(Ok(UnitStatus::Active)),
            Ask::ArgvPoint(_) => Answer::ArgvPoint(Ok(None)),
            Ask::AwaitGone(_, _) => Answer::Gone(false),
            _ => Answer::Done(Ok(())),
        };
        match u.step(answer) {
            Step::Go(next) => u = next,
            Step::Finished(r) => break r,
        }
    };
    match end {
        Err(SupervisorError::Busy { detail }) => assert_eq!(
            detail,
            "/scratch/mnt is still mounted after everything this can do to release it. \
             Something is holding it that a lazy unmount did not clear either, so there is \
             likely a second filesystem stacked under the same path."
        ),
        other => panic!("expected Busy, got {other:?}"),
    }
}

#[test]
fn what_fusermount_said_is_passed_on() {
    assert_eq!(fusermount_args(POINT, Release::Refuse), ["-u", POINT]);
    assert_eq!(fusermount_args(POINT, Release::Detach), ["-u", "-z", POINT]);
    assert_eq!(fusermount(POINT, Exit::Success), Ok(()));
    assert_eq!(
        fusermount(POINT, Exit::Failure(b" device busy..\n".to_vec())),
        Err(SupervisorError::Busy {
            detail: "/scratch/mnt could not be unmounted: device busy".into()
        })
    );
    assert_eq!(
        fusermount(POINT, Exit::Failure(vec![0xff])),
        Err(SupervisorError::Busy {
            detail: "/scratch/mnt could not be unmounted: \u{fffd}".into()
        })
    );
    assert_eq!(
        fusermount(POINT, Exit::NotRun("no such file".into())),
        Err(SupervisorError::Supervision {
            context: "running fusermount for /scratch/mnt".into(),
            source: Some("no such file".into())
        })
    );
    assert!(is_stale(Some(ENOTCONN)));
    assert!(!is_stale(Some(2)));
    assert!(!is_stale(None));
}

#[test]
fn a_mount_point_has_to_be_a_directory() {
    assert_eq!(prepare_mount_point(POINT, PathKind::Directory), Ok(false));
    assert_eq!(prepare_mount_point(POINT, PathKind::Missing), Ok(true));
    let bad = |reason: &str, source: Option<&str>| SupervisorError::BadMountPoint {
        path: POINT.into(),
        reason: reason.into(),
        source: source.map(|s| s.into()),
    };
    assert_eq!(
        prepare_mount_point(POINT, PathKind::NotADirectory),
        Err(bad("exists but is not a directory", None))
    );
    assert_eq!(
        prepare_mount_point(POINT, PathKind::Unreadable("denied".into())),
        Err(bad("could not be inspected", Some("denied")))
    );
    assert_eq!(
        not_created(POINT, "denied".into()),
        bad("could not be created", Some("denied"))
    );
    assert_eq!(
        prepare_runtime_dir(RUN, "denied".into()),
        SupervisorError::Supervision {
            context: "preparing the runtime directory /scratch/run".into(),
            source: Some("denied".into())
        }
    );
}
