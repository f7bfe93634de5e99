//! Texts, paths, tables and figures, held against what the standard library makes of them.

use std::path::Path;
use vfsmount_tray::args::{resolve_log_filter, runtime_dir};
use vfsmount_tray::mountinfo::{is_mounted_at, parse, MountEntry};
use vfsmount_tray::paths::{is_rooted, join_path, same_path};
use vfsmount_tray::quantity::pending_phrase;
use vfsmount_tray::rate::RateEstimator;
use vfsmount_tray::rc::socket_file_name;
use vfsmount_tray::registry::Registry;
use vfsmount_tray::table::Table;
use vfsmount_tray::text::{
    any_text, chars_of, contains_text, decimal, is_white_space, join, lines, same_text, split,
    starts_with, strip_prefix, strip_suffix, text_before, text_of, trim, trim_end, trim_end_of,
};
use vfsmount_tray::transfer::{
    tier_from_name, tier_name, DiskCache, QueueItem, Scan, ScanFile, Tier, TransferState,
};
use vfsmount_tray::wrap::split_to_width;

const TEXTS: [&str; 16] = [
    "",
    " ",
    "a",
    "ab",
    "b",
    "é",
    "a\u{3000}",
    "\n",
    "one\ntwo",
    "one\r\ntwo\n\n",
    "one\r\r\n\r",
    " \t padded \u{85}\u{200b} ",
    "a..b..",
    "\u{10ffff}\u{d7ff}",
    "aab aab",
    "no\\such",
];

#[test]
fn white_space_is_the_standard_librarys() {
    for n in 0..=0x10ffffu32 {
        if let Some(c) = char::from_u32(n) {
            assert_eq!(is_white_space(c), c.is_whitespace(), "{n:x}");
        }
    }
}

#[test]
fn texts_are_taken_apart_as_the_standard_library_does() {
    for s in TEXTS {
        assert_eq!(chars_of(s), s.chars().collect::<Vec<_>>());
        assert_eq!(trim(s), s.trim(), "{s:?}");
        assert_eq!(trim_end(s), s.trim_end(), "{s:?}");
        assert_eq!(trim_end_of(s, '.'), s.trim_end_matches('.'), "{s:?}");
        assert_eq!(lines(s), s.lines().collect::<Vec<_>>(), "{s:?}");
        assert_eq!(split(s, 'a'), s.split('a').collect::<Vec<_>>(), "{s:?}");
        assert_eq!(join(&split(s, 'a'), "a"), s);
        for p in TEXTS {
            assert_eq!(same_text(s, p), s == p);
            assert_eq!(text_before(s, p), s < p, "{s:?} {p:?}");
            assert_eq!(starts_with(s, p), s.starts_with(p), "{s:?} {p:?}");
            assert_eq!(contains_text(s, p), s.contains(p), "{s:?} {p:?}");
            assert_eq!(strip_prefix(s, p).as_deref(), s.strip_prefix(p));
            assert_eq!(strip_suffix(s, p).as_deref(), s.strip_suffix(p));
        }
    }
    assert_eq!(text_of(&chars_of("héllo"), 1, 3), "él");
    assert!(any_text(&vec!["a".to_string(), "b".to_string()], "b"));
    assert!(!any_text(&vec![], ""));
    for n in [0u64, 7, 10, 999, 1000, u64::MAX] {
        assert_eq!(decimal(n), n.to_string());
    }
}

#[test]
fn paths_are_compared_and_joined_as_the_standard_library_does() {
    let paths = [
        "", "/", "//", ".", "./", "./a", "a", "a/", "a/.", "a//b", "a/./b", "a/b", "/a/b", "/a/../b",
        "/./a/b/", "..", "../a", "/a/b/.", "a/b/..", "/é",
    ];
    for a in paths {
        assert_eq!(is_rooted(a), Path::new(a).has_root());
        for b in paths {
            assert_eq!(
                same_path(a, b),
                Path::new(a) == Path::new(b),
                "{a:?} {b:?}"
            );
            assert_eq!(
                Some(join_path(a, b).as_str()),
                Path::new(a).join(b).to_str(),
                "{a:?} {b:?}"
            );
        }
    }
}

#[test]
fn the_mount_table_is_read_with_its_escapes_undone() {
    let table = "28 1 259:2 / / rw,relatime shared:1 - ext4 /dev/nvme0n1p2 rw\n\
                 150 28 0:50 / /mnt/my\\040files rw shared:7 master:2 - fuse.rclone drive:a\\134b rw\n\
                 151 28 0:51 / /mnt/plain rw - fuse.rclone drive: rw\n\
                 not a line of it\n\
                 152 28 0:52 / /mnt/cut rw - fuse.rclone\n\
                 153 28 0:53 / /mnt/odd\\9 rw - tmpfs tmpfs\\0 rw\n";
    let entry = |mount_point: &str, fs_type: &str, source: &str| MountEntry {
        mount_point: mount_point.to_string(),
        fs_type: fs_type.to_string(),
        source: source.to_string(),
    };
    let live = parse(table);
    assert_eq!(
        live,
        [
            entry("/", "ext4", "/dev/nvme0n1p2"),
            entry("/mnt/my files", "fuse.rclone", "drive:a\\b"),
            entry("/mnt/plain", "fuse.rclone", "drive:"),
            entry("/mnt/odd\\9", "tmpfs", "tmpfs\\0"),
        ]
    );
    assert!(!live[0].is_rclone());
    assert!(live[1].is_rclone());
    assert!(is_mounted_at(&live, "/mnt/my files/"));
    assert!(!is_mounted_at(&live, "/mnt/my"));
    assert!(parse("").is_empty());
}

#[test]
fn no_two_mounts_share_a_socket() {
    let names = ["backup", "a/b", "a%2Fb", "a%b", "/", "%2F", ".."];
    let files: Vec<String> = names.iter().map(|n| socket_file_name(n)).collect();
    assert_eq!(
        files,
        [
            "backup.sock",
            "a%2Fb.sock",
            "a%252Fb.sock",
            "a%25b.sock",
            "%2F.sock",
            "%252F.sock",
            "...sock"
        ]
    );
    assert!(files.iter().all(|f| !f.contains('/')));
}

#[test]
fn a_log_level_is_one_of_six_words() {
    assert_eq!(
        resolve_log_filter(Some("debug"), Some("zbus=trace".to_string())),
        Ok("debug".to_string())
    );
    assert_eq!(
        resolve_log_filter(None, Some("zbus=trace".to_string())),
        Ok("zbus=trace".to_string())
    );
    assert_eq!(resolve_log_filter(None, None), Ok("info".to_string()));
    assert_eq!(
        resolve_log_filter(Some("lo\"ud\t"), None),
        Err(
            "--log-level must be one of: off, error, warn, info, debug, trace \
             (got \"lo\\\"ud\\t\"). Use RUST_LOG for per-target directives."
                .to_string()
        )
    );
}

#[test]
fn sockets_live_under_the_sessions_runtime_directory() {
    assert_eq!(
        runtime_dir(Some("/run/user/1000")),
        Ok("/run/user/1000/rclone-vfsmount-tray".to_string())
    );
    assert!(runtime_dir(None).is_err());
    assert!(runtime_dir(Some("")).is_err());
}

#[test]
fn a_rate_needs_two_samples_and_something_that_shrinks() {
    let mut r = RateEstimator::new();
    assert_eq!(r.sample(1000, 500), None);
    assert_eq!(r.sample(2000, 300), Some(200));
    assert_eq!(r.sample(2500, 200), Some(200));
    assert_eq!(r.sample(2500, 100), None, "no time went by");
    assert_eq!(r.sample(3500, 900), None, "the queue grew");
    assert_eq!(r.sample(4500, 900), Some(0));
    r.reset();
    assert_eq!(r.sample(5500, 0), None);
    assert_eq!(r.sample(5501, 0), Some(0));
    let mut fast = RateEstimator::new();
    fast.sample(0, u64::MAX);
    assert_eq!(fast.sample(1, 0), Some(u64::MAX));
}

#[test]
fn rows_stay_in_the_order_of_their_names() {
    let mut t: Table<String> = Table::new();
    for (name, v) in [("b", "1"), ("é", "2"), ("a", "3"), ("b", "4"), ("ab", "5")] {
        t.insert(name.to_string(), v.to_string());
    }
    assert_eq!(t.len(), 4);
    let rows: Vec<(&str, &str)> = t
        .rows()
        .iter()
        .map(|(n, v)| (n.as_str(), v.as_str()))
        .collect();
    assert_eq!(rows, [("a", "3"), ("ab", "5"), ("b", "4"), ("é", "2")]);
    assert_eq!(t.get("b").map(|v| v.as_str()), Some("4"));
    assert!(t.remove("b"));
    assert!(!t.remove("b"));
    assert!(t.get("b").is_none());
    assert_eq!(t.len(), 3);
    assert!(Registry::default().mounts().is_empty());
}

#[test]
fn a_tier_is_found_under_its_own_name() {
    for t in [Tier::T1, Tier::T2, Tier::T3, Tier::T4] {
        assert_eq!(tier_from_name(&tier_name(t)), Some(t));
    }
    assert_eq!(tier_from_name("T5"), None);
    assert_eq!(tier_from_name(""), None);
}

#[test]
fn the_unobserved_is_neither_idle_nor_safe() {
    let s = TransferState::unmonitored("m", "why".to_string());
    assert_eq!(s.pending.files, 0);
    assert!(!s.is_idle() && !s.safe_to_unmount() && !s.has_byte_total());
    let empty = TransferState::from_queue("m", &Some(vec![]));
    assert!(empty.is_idle() && empty.safe_to_unmount());
    let partial = empty.partially_observed("only a part".to_string());
    assert!(!partial.is_idle() && !partial.safe_to_unmount());
    assert_eq!(partial.degraded_reason.as_deref(), Some("only a part"));
}

#[test]
fn readings_count_what_they_were_given() {
    let q = |name: &str, size: Option<u64>, uploading: bool| QueueItem {
        name: name.to_string(),
        size,
        tries: 0,
        uploading,
    };
    let s = TransferState::from_queue(
        "m",
        &Some(vec![
            q("a", Some(10), true),
            q("b", None, false),
            q("c", Some(u64::MAX), true),
        ]),
    );
    assert_eq!(s.pending.files, 3);
    assert_eq!(s.pending.known_bytes, u64::MAX, "a total does not wrap");
    assert_eq!(s.pending.unknown_size_files, 1);
    assert_eq!(s.uploading, Some(2));

    let c = DiskCache {
        path: String::new(),
        path_meta: String::new(),
        uploads_queued: u64::MAX,
        uploads_in_progress: 2,
        errored_files: 4,
        out_of_space: true,
    };
    let s = TransferState::from_stats("m", &c);
    assert_eq!(s.pending.files, u64::MAX);
    assert_eq!(s.errored_files, Some(4));
    assert_eq!(s.out_of_space, Some(true));
    assert!(!s.has_byte_total());

    let s = TransferState::from_scan(
        "m",
        &Scan {
            root_present: true,
            files: vec![ScanFile {
                name: "a".to_string(),
                size: Some(3),
            }],
            unreadable: 0,
            truncated: false,
        },
    );
    assert_eq!(s.remaining_bytes(), 3);
    assert_eq!(s.fidelity, Some(Tier::T4));
}

#[test]
fn a_word_is_cut_into_pieces_of_the_width() {
    assert_eq!(split_to_width("abcdefg", 3), ["abc", "def", "g"]);
    assert_eq!(split_to_width("éé", 1), ["é", "é"]);
    assert_eq!(split_to_width("ab", 9), ["ab"]);
    assert_eq!(split_to_width("ab", 0), ["", "ab"]);
    assert_eq!(split_to_width("", 0), [""]);
}

#[test]
fn a_total_says_what_it_leaves_out() {
    assert_eq!(pending_phrase(1, 0, 0), "1 file pending");
    assert_eq!(
        pending_phrase(3, 1024, 2),
        "3 files, 1 KiB pending (2 of unknown size)"
    );
}
