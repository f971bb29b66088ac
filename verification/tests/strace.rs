use sparreal::strace::{StraceState, FULL_NOTE, MAX_BUF};

fn line(task: &str, tid: u64, sysno: &str, args: [usize; 6], ret: isize) -> String {
    format!(
        "{task}[{tid}] {sysno}({:#x},{:#x},{:#x},{:#x},{:#x},{:#x}) = {ret}\n",
        args[0], args[1], args[2], args[3], args[4], args[5]
    )
}

#[test]
fn records_everything_without_filter() {
    let mut s = StraceState::new();
    s.record("init", 1, "write", [1, 0x1000, 5, 0, 0, 0], 5);
    s.record("sh", 2, "read", [0, 0x2000, 1, 0, 0, 0], -11);
    let out = s.drain();
    let expected = line("init", 1, "write", [1, 0x1000, 5, 0, 0, 0], 5)
        + &line("sh", 2, "read", [0, 0x2000, 1, 0, 0, 0], -11);
    assert_eq!(String::from_utf8(out).unwrap(), expected);
    assert_eq!(expected.lines().next().unwrap(), "init[1] write(0x1,0x1000,0x5,0x0,0x0,0x0) = 5");
    assert!(s.drain().is_empty());
}

#[test]
fn process_filter_matches_substrings() {
    let mut s = StraceState::new();
    s.set_filter("jcode\n");
    s.record("jcode-worker", 3, "connect", [0; 6], 0);
    s.record("init", 1, "connect", [0; 6], 0);
    let out = String::from_utf8(s.drain()).unwrap();
    assert_eq!(out, line("jcode-worker", 3, "connect", [0; 6], 0));
}

#[test]
fn syscall_filter_is_case_insensitive_and_trimmed() {
    let mut s = StraceState::new();
    s.set_filter("jcode: Connect , SOCKET,,");
    s.record("jcode", 1, "connect", [0; 6], 0);
    s.record("jcode", 1, "SOCKET", [0; 6], 3);
    s.record("jcode", 1, "read", [0; 6], 0);
    s.record("other", 1, "socket", [0; 6], 0);
    let out = String::from_utf8(s.drain()).unwrap();
    assert_eq!(
        out,
        line("jcode", 1, "connect", [0; 6], 0) + &line("jcode", 1, "SOCKET", [0; 6], 3)
    );
}

#[test]
fn empty_process_part_matches_all_tasks() {
    let mut s = StraceState::new();
    s.set_filter(":sendto");
    s.record("a", 1, "sendto", [0; 6], 0);
    s.record("b", 2, "recvfrom", [0; 6], 0);
    s.record("c", 3, "sendto", [0; 6], 0);
    let out = String::from_utf8(s.drain()).unwrap();
    assert_eq!(out, line("a", 1, "sendto", [0; 6], 0) + &line("c", 3, "sendto", [0; 6], 0));
}

#[test]
fn clear_keeps_the_filter() {
    let mut s = StraceState::new();
    s.set_filter("x:open");
    s.record("x", 1, "open", [0; 6], 0);
    s.set_filter("  --clear \n");
    s.record("y", 1, "open", [0; 6], 0);
    s.record("x", 1, "openat", [0; 6], 0);
    let out = String::from_utf8(s.drain()).unwrap();
    assert_eq!(out, line("x", 1, "openat", [0; 6], 0));
}

#[test]
fn buffer_stops_when_full_and_keeps_the_earliest() {
    let mut s = StraceState::new();
    let long = "t".repeat(MAX_BUF / 2);
    s.record(&long, 1, "first", [0; 6], 0);
    let first = line(&long, 1, "first", [0; 6], 0);
    // The second line does not fit: the note is appended and recording stops.
    s.record(&long, 2, "second", [0; 6], 0);
    s.record("x", 3, "third", [0; 6], 0);
    let out = String::from_utf8(s.drain()).unwrap();
    assert_eq!(out, first + FULL_NOTE);
    // After draining, entries are taken again.
    s.record("x", 3, "third", [0; 6], 0);
    assert_eq!(String::from_utf8(s.drain()).unwrap(), line("x", 3, "third", [0; 6], 0));
}

#[test]
fn append_entry_enforces_the_capacity() {
    let mut s = StraceState::new();
    let big = vec![b'a'; MAX_BUF];
    s.append_entry(&big);
    s.append_entry(b"more");
    let out = s.drain();
    assert_eq!(out.len(), MAX_BUF);
    assert!(out.iter().all(|b| *b == b'a'));
}

#[test]
fn syscall_selected_checks_each_listed_name() {
    let mut s = StraceState::new();
    s.set_filter(":epoll");
    assert!(s.syscall_selected("epoll_pwait"));
    assert!(!s.syscall_selected("poll"));
}

#[test]
fn syscall_filter_matches_prefixes_only() {
    let mut s = StraceState::new();
    s.set_filter("x:read");
    s.record("x", 1, "pread64", [0; 6], 0);
    assert!(s.drain().is_empty());
    s.record("x", 1, "READ", [0; 6], 0);
    s.record("x", 1, "readv", [0; 6], 0);
    let out = String::from_utf8(s.drain()).unwrap();
    assert_eq!(out, line("x", 1, "READ", [0; 6], 0) + &line("x", 1, "readv", [0; 6], 0));
    assert!(!s.syscall_selected("pread64"));
    assert!(!s.syscall_selected("rea"));
}

#[test]
fn line_renders_numbers_exactly() {
    let mut s = StraceState::new();
    s.record("t", 18446744073709551615, "mmap", [0, 0xdeadbeef, 0xff, 10, 16, usize::MAX], isize::MIN);
    let out = String::from_utf8(s.drain()).unwrap();
    assert_eq!(
        out,
        "t[18446744073709551615] mmap(0x0,0xdeadbeef,0xff,0xa,0x10,0xffffffffffffffff) = -9223372036854775808\n"
    );
}

#[test]
fn filter_is_trimmed_of_unicode_white_space() {
    let mut s = StraceState::new();
    s.set_filter("\u{3000} x:\u{a0}read\u{2003}, \u{85}\n\n");
    s.record("x", 1, "read", [0; 6], 0);
    s.record("y", 1, "read", [0; 6], 0);
    let out = String::from_utf8(s.drain()).unwrap();
    assert_eq!(out, line("x", 1, "read", [0; 6], 0));
}
