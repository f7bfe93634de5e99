//! What the tray derives from what the service published.

use vfsmount_tray::ipc::{mount_view, state_from_name, MountView, TransferFileView, TransferView};
use vfsmount_tray::link::LinkError;
use vfsmount_tray::model::{Down, ServiceInfo, TrayModel, TrayState};
use vfsmount_tray::quantity::{eta_phrase, files_and_bytes, human_bytes};
use vfsmount_tray::supervisor::state::DiscoveredMount;
use vfsmount_tray::wrap::wrap;

fn service() -> ServiceInfo {
    ServiceInfo {
        service_version: "0.1.0".to_string(),
        interface_version: 1,
        rclone_version: "1.75.0".to_string(),
        capability_tier: "T2".to_string(),
    }
}

/// A row as the service would publish it.
fn mount(name: &str, state: &str) -> MountView {
    let parsed = state_from_name(
        state,
        &Some("rclone exited before the mount appeared".to_string()),
    )
    .expect("a state this build knows");
    let found = DiscoveredMount::new(name.to_string(), parsed).at(format!("/mnt/{name}"));
    mount_view(&found, Some(format!("{name}:")))
}

/// A clean reading of the queue with nothing outstanding.
fn idle_transfer(name: &str) -> TransferView {
    TransferView {
        mount: name.to_string(),
        fidelity: Some("T2".to_string()),
        outstanding_known: true,
        has_progress: false,
        pending_files: 0,
        pending_known_bytes: 0,
        pending_unknown_size_files: 0,
        uploading: Some(0),
        errored_files: Some(0),
        out_of_space: Some(false),
        rate_bytes_per_sec: None,
        files: Vec::new(),
        degraded_reason: None,
    }
}

fn pending(t: &mut TransferView, files: u64, bytes: u64, unsized_files: u64) {
    t.pending_files = files;
    t.pending_known_bytes = bytes;
    t.pending_unknown_size_files = unsized_files;
}

fn connected(mounts: Vec<MountView>, transfers: Vec<TransferView>) -> TrayModel {
    let mut m = TrayModel::new();
    m.go_up(service(), mounts);
    for t in &transfers {
        m.upsert_transfer(t);
    }
    m
}

#[test]
fn every_state_shows_a_different_icon() {
    let states = [
        TrayState::Connecting,
        TrayState::Disconnected,
        TrayState::Attention,
        TrayState::Degraded,
        TrayState::Syncing,
        TrayState::Offline,
        TrayState::Idle,
    ];
    let names: std::collections::BTreeSet<_> = states.iter().map(|s| s.icon_name()).collect();
    assert_eq!(names.len(), states.len(), "two states share an icon");
    assert!(states.iter().all(|s| !s.label().is_empty()));
}

#[test]
fn only_the_state_that_needs_acting_on_asks_for_attention() {
    assert!(TrayState::Attention.needs_attention());
    for quiet in [
        TrayState::Disconnected,
        TrayState::Degraded,
        TrayState::Syncing,
        TrayState::Offline,
        TrayState::Idle,
    ] {
        assert!(!quiet.needs_attention(), "{quiet:?} asks for attention");
    }
}

#[test]
fn the_state_is_never_up_without_a_link_and_says_which_kind_of_not() {
    let mut m = TrayModel::new();
    assert_eq!(m.state(), TrayState::Connecting, "before the first attempt");
    m.go_up(service(), vec![mount("photos", "mounted")]);
    m.upsert_transfer(&idle_transfer("photos"));
    assert_eq!(m.state(), TrayState::Idle);
    m.go_down(&LinkError::NotRunning);
    assert_eq!(m.state(), TrayState::Disconnected);
}

#[test]
fn losing_the_link_forgets_every_mount() {
    let mut m = connected(
        vec![mount("photos", "mounted")],
        vec![idle_transfer("photos")],
    );
    assert_eq!(m.mounts().len(), 1);
    m.go_down(&LinkError::NotRunning);
    assert_eq!(m.mounts().len(), 0);
    assert!(m.transfer("photos").is_none());
}

#[test]
fn reattaching_replaces_the_list_rather_than_merging_into_it() {
    let mut m = connected(
        vec![mount("photos", "mounted"), mount("docs", "mounted")],
        vec![idle_transfer("photos")],
    );
    m.go_up(service(), vec![mount("photos", "mounted")]);
    assert_eq!(
        m.mounts().iter().map(|r| r.1.name.as_str()).collect::<Vec<_>>(),
        ["photos"]
    );
    assert!(
        m.transfer("photos").is_none(),
        "readings from the previous service lifetime are not carried over"
    );
}

#[test]
fn a_failed_mount_wants_attention() {
    let mut failed = mount("photos", "failed");
    failed.reason = Some("rclone exited".to_string());
    let m = connected(vec![failed], vec![]);
    assert_eq!(m.state(), TrayState::Attention);
}

#[test]
fn errored_uploads_and_a_full_cache_each_want_attention() {
    for spoil in [
        |t: &mut TransferView| t.errored_files = Some(2),
        |t: &mut TransferView| t.out_of_space = Some(true),
    ] {
        let mut t = idle_transfer("photos");
        spoil(&mut t);
        let m = connected(vec![mount("photos", "mounted")], vec![t]);
        assert_eq!(m.state(), TrayState::Attention);
    }
}

#[test]
fn a_live_mount_that_cannot_be_read_is_degraded() {
    for blind in [
        |t: &mut TransferView| t.degraded_reason = Some("rclone unreachable".to_string()),
        |t: &mut TransferView| t.outstanding_known = false,
    ] {
        let mut t = idle_transfer("photos");
        blind(&mut t);
        let m = connected(vec![mount("photos", "mounted")], vec![t]);
        assert_eq!(m.state(), TrayState::Degraded);
    }
}

#[test]
fn a_mount_that_is_simply_down_does_not_degrade_the_tray() {
    let mut t = idle_transfer("photos");
    t.outstanding_known = false;
    t.degraded_reason = Some("the mount is not serving".to_string());
    let m = connected(
        vec![mount("photos", "unmounted"), mount("docs", "mounted")],
        vec![t, idle_transfer("docs")],
    );
    assert_eq!(m.state(), TrayState::Idle);
}

#[test]
fn a_reading_that_cannot_be_vouched_for_outranks_one_that_can() {
    let mut blind = idle_transfer("photos");
    blind.degraded_reason = Some("rclone unreachable".to_string());
    let mut busy = idle_transfer("docs");
    pending(&mut busy, 3, 1024, 0);
    let m = connected(
        vec![mount("photos", "mounted"), mount("docs", "mounted")],
        vec![blind, busy],
    );
    assert_eq!(m.state(), TrayState::Degraded);
}

#[test]
fn nothing_serving_reads_as_offline_rather_than_idle() {
    let m = connected(vec![mount("photos", "unmounted")], vec![]);
    assert_eq!(m.state(), TrayState::Offline);
}

#[test]
fn work_outstanding_reads_as_syncing() {
    let mut t = idle_transfer("photos");
    pending(&mut t, 3, 1_288_490_188, 0);
    let m = connected(vec![mount("photos", "mounted")], vec![t]);
    assert_eq!(m.state(), TrayState::Syncing);
    assert_eq!(
        m.summary().pending_line().as_deref(),
        Some("3 files, 1.2 GiB pending")
    );
}

#[test]
fn only_live_mounts_contribute_to_the_summary() {
    let mut down = idle_transfer("photos");
    pending(&mut down, 9, 9_000_000, 0);
    let mut up = idle_transfer("docs");
    pending(&mut up, 1, 1024, 0);
    let s = connected(
        vec![mount("photos", "unmounted"), mount("docs", "mounted")],
        vec![down, up],
    )
    .summary();
    assert_eq!((s.live, s.total), (1, 2));
    assert_eq!(s.files, 1, "the unmounted mount's queue is not aggregated");
}

#[test]
fn nothing_mounted_gives_no_pending_line_at_all() {
    let s = connected(vec![mount("photos", "unmounted")], vec![]).summary();
    assert_eq!(s.pending_line(), None);
    assert_eq!(s.mounted_line(), "0 of 1 mounted");
}

#[test]
fn no_mounts_at_all_says_so() {
    assert_eq!(
        connected(vec![], vec![]).summary().mounted_line(),
        "No mounts configured"
    );
}

#[test]
fn an_eta_needs_a_byte_total_every_pending_mount_can_vouch_for() {
    let mut countable = idle_transfer("photos");
    pending(&mut countable, 2, 20_000_000, 0);
    countable.rate_bytes_per_sec = Some(10_000_000);

    let mut sizeless = idle_transfer("docs");
    sizeless.fidelity = Some("T3".to_string());
    pending(&mut sizeless, 2, 0, 2);
    sizeless.rate_bytes_per_sec = Some(10_000_000);

    let honest = connected(vec![mount("photos", "mounted")], vec![countable.clone()]).summary();
    assert_eq!(honest.remaining, Some(20_000_000));
    let line = honest.rate_line().expect("a rate was reported");
    assert!(line.contains("left"), "{line}");

    let spoiled = connected(
        vec![mount("photos", "mounted"), mount("docs", "mounted")],
        vec![countable, sizeless],
    )
    .summary();
    assert_eq!(spoiled.remaining, None);
    let line = spoiled.rate_line().expect("a rate was still reported");
    assert!(
        !line.contains("left"),
        "one mount that cannot give a total must suppress the estimate: {line}"
    );
}

#[test]
fn bytes_already_sent_come_off_the_estimate() {
    let mut t = idle_transfer("photos");
    pending(&mut t, 1, 10_000_000, 0);
    t.has_progress = true;
    t.files = vec![TransferFileView {
        name: "clip.mp4".to_string(),
        size: Some(10_000_000),
        in_flight: Some(true),
        tries: Some(1),
        bytes_sent: Some(6_000_000),
    }];
    t.rate_bytes_per_sec = Some(1_048_576);

    let s = connected(vec![mount("photos", "mounted")], vec![t]).summary();
    assert_eq!(s.remaining, Some(4_000_000));
    assert_eq!(
        s.rate_line().as_deref(),
        Some("1 MiB/s · a few seconds left")
    );
}

#[test]
fn no_rate_means_no_rate_line() {
    let mut t = idle_transfer("photos");
    pending(&mut t, 1, 1024, 0);
    let s = connected(vec![mount("photos", "mounted")], vec![t]).summary();
    assert_eq!(s.rate_line(), None);
}

#[test]
fn files_of_unknown_size_are_counted_but_not_weighed() {
    let mut t = idle_transfer("photos");
    pending(&mut t, 3, 1024, 2);
    let line = connected(vec![mount("photos", "mounted")], vec![t])
        .summary()
        .pending_line()
        .expect("something is pending");
    assert_eq!(line, "3 files, 1 KiB pending (2 of unknown size)");
}

#[test]
fn a_notice_lasts_until_the_mount_it_names_moves_on() {
    let mut m = connected(vec![mount("photos", "mounted")], vec![]);
    m.set_notice(Some("photos".to_string()), "photos: still in use".to_string());
    assert!(m.notice().is_some());

    m.upsert_mount(mount("docs", "mounted"));
    assert!(
        m.notice().is_some(),
        "another mount's news is not this one's"
    );

    m.upsert_mount(mount("photos", "unmounted"));
    assert!(m.notice().is_none());
}

#[test]
fn a_removed_mount_takes_its_reading_with_it() {
    let mut m = connected(
        vec![mount("photos", "mounted")],
        vec![idle_transfer("photos")],
    );
    m.remove_mount("photos");
    assert_eq!(m.mounts().len(), 0);
    assert!(m.transfer("photos").is_none());
}

#[test]
fn only_a_stopped_service_is_worth_offering_to_start() {
    assert!(Down::from_error(&LinkError::NotRunning).offer_start);
    for pointless in [
        LinkError::Incompatible,
        LinkError::TooOld {
            needed: 2,
            found: 1,
        },
    ] {
        let d = Down::from_error(&pointless);
        assert!(!d.offer_start, "{}", d.headline);
        assert!(!d.headline.is_empty());
    }
}

#[test]
fn bytes_read_the_way_rclone_counts_them() {
    for (n, want) in [
        (0u64, "0 B"),
        (999, "999 B"),
        (1024, "1 KiB"),
        (1536, "1.5 KiB"),
        (1_048_576, "1 MiB"),
        (1_288_490_188, "1.2 GiB"),
        (1_099_511_627_776, "1 TiB"),
        (u64::MAX, "16 EiB"),
    ] {
        assert_eq!(human_bytes(n), want, "{n}");
    }
}

/// The same figure by floating point, one decimal and no trailing zero.
fn by_float(n: u64) -> String {
    let units = ["KiB", "MiB", "GiB", "TiB", "PiB", "EiB"];
    if n < 1024 {
        return format!("{n} B");
    }
    let mut value = n as f64 / 1024.0;
    let mut unit = units[0];
    for next in &units[1..] {
        if value < 1024.0 {
            break;
        }
        value /= 1024.0;
        unit = next;
    }
    let rendered = format!("{value:.1}");
    format!("{} {unit}", rendered.strip_suffix(".0").unwrap_or(&rendered))
}

#[test]
fn bytes_are_rounded_as_a_double_is() {
    let mut n: u64 = 1;
    for step in 0..200_000u64 {
        n = n.wrapping_mul(6364136223846793005).wrapping_add(1442695040888963407);
        let v = n >> (step % 60);
        assert_eq!(human_bytes(v), by_float(v), "{v}");
    }
    // Halfway cases, the last place before a unit, and numbers a double cannot hold.
    for v in [
        1023u64, 1024, 1075, 1076, 1127, 1178, 1229, 1280, 1331, 1382, 1433, 1484, 1792, 2304,
        1_048_524, 1_048_525, 1_048_575, 1_310_720, 1_835_008, 1_073_741_823,
    ] {
        assert_eq!(human_bytes(v), by_float(v), "{v}");
    }
    for shift in 10..64u32 {
        let unit = 1u64 << shift;
        for k in 1..40u64 {
            for v in [unit - k, unit, unit.saturating_add(k), unit.saturating_add(unit / 40 * k)] {
                assert_eq!(human_bytes(v), by_float(v), "{v}");
            }
        }
    }
    assert_eq!(human_bytes(u64::MAX), by_float(u64::MAX));
    assert_eq!(human_bytes(1_048_575), "1024 KiB");
}

#[test]
fn an_estimate_is_hedged_and_stops_at_a_useful_resolution() {
    for (secs, want) in [
        (0u64, "a few seconds"),
        (4, "a few seconds"),
        (5, "about 5s"),
        (59, "about 59s"),
        (60, "about 1m"),
        (3599, "about 59m"),
        (3600, "about 1h"),
        (5400, "about 1h 30m"),
        (86_400, "over a day"),
    ] {
        assert_eq!(eta_phrase(secs), want, "{secs}");
    }
}

#[test]
fn a_single_file_is_not_pluralised_and_an_unknown_total_is_not_shown() {
    assert_eq!(files_and_bytes(1, 0), "1 file");
    assert_eq!(files_and_bytes(2, 0), "2 files");
    assert_eq!(files_and_bytes(1, 2048), "1 file, 2 KiB");
}

#[test]
fn a_long_refusal_is_broken_into_rows_and_says_when_it_was_cut() {
    let short = wrap("still in use", 64, 5);
    assert_eq!(short, ["still in use"]);

    let text = "the mount point could not be released because a process is still \
                using it; run fuser to find out which one, then close it and try again";
    let lines = wrap(text, 32, 3);
    assert!(lines.iter().all(|l| l.len() <= 34), "{lines:?}");
    assert_eq!(lines.len(), 3);
    assert!(
        lines.last().unwrap().ends_with('…'),
        "a sentence cut short must say so: {lines:?}"
    );

    assert!(wrap("", 32, 5).is_empty());
}

#[test]
fn no_rows_at_all_are_shown_where_none_are_asked_for() {
    assert!(wrap("something", 10, 0).is_empty());
    assert_eq!(wrap("one two", 3, 2), ["one", "two"]);
    assert_eq!(wrap("one two three", 3, 2), ["one", "two …"]);
}

#[test]
fn a_serving_mount_that_has_said_nothing_is_not_called_synced() {
    let m = connected(vec![mount("elsewhere", "foreign")], vec![]);
    assert_eq!(m.state(), TrayState::Degraded);
    let line = m.summary().pending_line().expect("something is mounted");
    assert!(line.contains("unknown"), "{line}");
    assert_ne!(line, "All synced");
}

#[test]
fn one_blank_mount_does_not_hide_behind_another_that_answered() {
    let mut busy = idle_transfer("photos");
    pending(&mut busy, 2, 2048, 0);
    let m = connected(
        vec![mount("photos", "mounted"), mount("elsewhere", "foreign")],
        vec![busy],
    );
    let s = m.summary();
    assert_eq!(s.unobservable, 1);
    assert!(
        s.pending_line().unwrap().contains("1 mount(s) unreadable"),
        "{:?}",
        s.pending_line()
    );
}

#[test]
fn an_estimate_needs_every_pending_file_to_have_a_size() {
    let mut t = idle_transfer("photos");
    pending(&mut t, 5, 100 * 1024 * 1024, 1);
    t.rate_bytes_per_sec = Some(10 * 1024 * 1024);
    let s = connected(vec![mount("photos", "mounted")], vec![t]).summary();
    assert_eq!(s.remaining, None);
    let line = s.rate_line().expect("the rate itself is still known");
    assert!(!line.contains("left"), "{line}");
}

#[test]
fn a_refresh_keeps_the_notice_and_a_new_service_does_not() {
    let mut m = connected(vec![mount("photos", "mounted")], vec![]);
    m.set_notice(Some("photos".to_string()), "photos: still in use".to_string());

    m.resync(service(), vec![mount("photos", "mounted")]);
    assert!(
        m.notice().is_some(),
        "re-reading the same service does not make the refusal untrue"
    );

    m.go_up(service(), vec![mount("photos", "mounted")]);
    assert!(
        m.notice().is_none(),
        "a new service lifetime knows nothing of it"
    );
}

#[test]
fn a_wrapped_line_is_measured_in_characters_not_bytes() {
    let text = "él él él él";
    assert_eq!(wrap(text, 11, 5), ["él él él él"]);
}

#[test]
fn an_unreachable_service_says_so_once() {
    let d = Down::from_error(&LinkError::Transport("connection reset".to_string()));
    assert_eq!(
        d.headline.matches("could not be reached").count(),
        1,
        "{}",
        d.headline
    );
    assert!(d.headline.contains("connection reset"));
}

#[test]
fn no_estimate_is_offered_while_any_mount_cannot_be_read() {
    let mut busy = idle_transfer("photos");
    pending(&mut busy, 1, 100 * 1024 * 1024, 0);
    busy.rate_bytes_per_sec = Some(4 * 1024 * 1024);
    let m = connected(
        vec![mount("photos", "mounted"), mount("elsewhere", "foreign")],
        vec![busy],
    );
    let s = m.summary();
    assert_eq!(m.state(), TrayState::Degraded);
    assert_eq!(s.remaining, None);
    let line = s.rate_line().expect("the rate is still known");
    assert!(!line.contains("left"), "{line}");
}

#[test]
fn a_blind_mount_with_nothing_counted_still_stops_the_estimate() {
    let mut busy = idle_transfer("photos");
    pending(&mut busy, 1, 100 * 1024 * 1024, 0);
    busy.rate_bytes_per_sec = Some(4 * 1024 * 1024);
    let mut blind = idle_transfer("docs");
    blind.outstanding_known = false;
    let s = connected(
        vec![mount("photos", "mounted"), mount("docs", "mounted")],
        vec![busy, blind],
    )
    .summary();
    assert_eq!(s.remaining, None);
}

#[test]
fn a_word_with_no_spaces_is_broken_rather_than_left_to_overhang() {
    let path = "/home/someone/mnt/a-very-long-directory-name/photos";
    let lines = wrap(&format!("busy: {path}"), 20, 8);
    assert!(lines.iter().all(|l| l.chars().count() <= 20), "{lines:?}");
    assert!(lines.len() > 1);
    assert_eq!(
        lines.join("").replace(' ', ""),
        format!("busy:{path}").replace(' ', ""),
        "breaking a word must not lose any of it"
    );
}

#[test]
fn a_width_of_zero_does_not_spin() {
    assert!(!wrap("something", 0, 4).is_empty());
}

#[test]
fn every_failure_of_the_link_has_its_headline() {
    assert_eq!(
        Down::from_error(&LinkError::NoSessionBus("no address".to_string())).headline,
        "No session bus to reach"
    );
    assert_eq!(
        Down::from_error(&LinkError::Incompatible).headline,
        "The service speaks a different interface — update both halves"
    );
    assert_eq!(
        Down::from_error(&LinkError::TooOld { needed: 2, found: 1 }).headline,
        "The service is too old: it offers interface 1, this needs 2"
    );
    assert_eq!(
        Down::from_error(&LinkError::Refused(Some("not yours".to_string()))).headline,
        "not yours"
    );
}
