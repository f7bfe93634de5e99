//! Where tests keep their files.

use vfsmount_tray::scratch::{root, sanitised, Scratch, Scratches};

fn scratches() -> Scratches {
    Scratches {
        root: root("/tmp", u32::MAX, u64::MAX),
        named: 0,
    }
}

#[test]
fn two_scratches_never_share_a_path() {
    let mut among = scratches();
    let a = Scratch::new(&mut among, "same");
    let b = Scratch::new(&mut among, "same");
    assert_ne!(a.path(), b.path());
}

#[test]
fn a_tag_cannot_escape_the_root() {
    let mut among = scratches();
    let s = Scratch::new(&mut among, "../../etc");
    assert_eq!(
        std::path::Path::new(s.path()).parent(),
        Some(std::path::Path::new(&among.root))
    );
    assert_eq!(sanitised("../a b_C-1é"), "---a-b_C-1-");
}

#[test]
fn the_root_sits_directly_in_the_temporary_directory() {
    assert_eq!(
        std::path::Path::new(&root("/tmp", 7, 9)).parent(),
        Some(std::path::Path::new("/tmp"))
    );
}

#[test]
fn paths_leave_room_for_a_unix_socket() {
    let mut among = scratches();
    let s = Scratch::new(&mut among, "a-fairly-descriptive-tag");
    let sock = s.join("run") + "/backup.sock";
    assert!(sock.len() < 108, "{sock} is too long to bind");
}

#[test]
fn a_joined_path_is_inside_the_directory() {
    let mut among = scratches();
    let s = Scratch::new(&mut among, "inside");
    for (name, below) in [
        ("a", "/a"),
        ("a/b.txt", "/a/b.txt"),
        ("/etc", "/etc"),
        ("///etc/passwd", "/etc/passwd"),
        ("/", "/"),
        ("", "/"),
    ] {
        let p = s.join(name);
        assert_eq!(p, s.path().to_string() + below, "{name:?}");
        assert!(std::path::Path::new(&p).starts_with(s.path()), "{name:?}");
    }
}

#[test]
fn a_scratch_is_named_after_its_tag() {
    let mut among = scratches();
    among.named = 12;
    let s = Scratch::new(&mut among, "a b");
    assert_eq!(s.path(), among.root.clone() + "/0012-a-b");
    assert_eq!(among.named, 13);
}
