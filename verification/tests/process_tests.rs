use udbg_core::process::{
    process_cmdline, process_environ, process_fd, process_name, process_tasks, FdEntry, MemFd,
    PidName, Process,
};

#[test]
fn cmdline_trims_trailing_empty_fields_only() {
    let parsed = process_cmdline(b"ls\0-la\0\0");
    assert_eq!(parsed, vec!["ls".to_string(), "-la".to_string()]);
}

#[test]
fn cmdline_keeps_embedded_empty_fields() {
    let parsed = process_cmdline(b"a\0\0b\0");
    assert_eq!(parsed, vec!["a".to_string(), "".to_string(), "b".to_string()]);
}

#[test]
fn cmdline_of_unreadable_resource_is_empty() {
    let parsed = process_cmdline(b"");
    assert!(parsed.is_empty());
}

#[test]
fn environ_parses_name_value_pairs() {
    let parsed = process_environ(b"PATH=/bin\0HOME=/root\0");
    assert_eq!(parsed.len(), 2);
    assert_eq!(parsed[0].name, "PATH");
    assert_eq!(parsed[0].value, "/bin");
    assert_eq!(parsed[1].name, "HOME");
    assert_eq!(parsed[1].value, "/root");
}

#[test]
fn environ_skips_pieces_without_a_separator() {
    let parsed = process_environ(b"junk\0A=1\0");
    assert_eq!(parsed.len(), 1);
    assert_eq!(parsed[0].name, "A");
    assert_eq!(parsed[0].value, "1");
}

#[test]
fn comm_name_is_the_first_line() {
    assert_eq!(process_name(b"bash\n"), Some("bash".to_string()));
    assert_eq!(process_name(b"bash"), Some("bash".to_string()));
    assert_eq!(process_name(b""), None);
}

#[test]
fn fd_listing_skips_unresolved_and_non_numeric_entries() {
    let entries = vec![
        FdEntry { name: b"0".to_vec(), target: Some("/dev/null".to_string()) },
        FdEntry { name: b"3".to_vec(), target: None },
        FdEntry { name: b"x".to_vec(), target: Some("/tmp/file".to_string()) },
        FdEntry { name: b"12".to_vec(), target: Some("/tmp/log".to_string()) },
    ];
    let fds = process_fd(entries);
    assert_eq!(fds.len(), 2);
    assert_eq!(fds[0].fd, 0);
    assert_eq!(fds[0].path, "/dev/null");
    assert_eq!(fds[1].fd, 12);
    assert_eq!(fds[1].path, "/tmp/log");
}

#[test]
fn task_listing_keeps_numeric_names_in_order() {
    let names = vec![b"12".to_vec(), b"abc".to_vec(), b"7".to_vec(), b"".to_vec()];
    let tasks = process_tasks(&names);
    assert_eq!(tasks, vec![12, 7]);
}

#[test]
fn from_pid_mirrors_the_existence_check() {
    let p = Process::from_pid(42, true).expect("must exist");
    assert_eq!(p.pid(), 42);
    assert!(Process::from_pid(42, false).is_none());
}

#[test]
fn discovery_takes_the_first_matching_candidate() {
    let cands = vec![
        PidName { pid: 10, name: Some("init".to_string()) },
        PidName { pid: 20, name: Some("bash".to_string()) },
        PidName { pid: 30, name: Some("bash".to_string()) },
        PidName { pid: 40, name: None },
    ];
    let p = Process::from_comm(&cands, "bash").expect("must find bash");
    assert_eq!(p.pid(), 20);
    assert!(Process::from_comm(&cands, "nginx").is_none());
    let q = Process::from_name(&cands, "init").expect("must find init");
    assert_eq!(q.pid(), 10);
}

#[test]
fn first_open_of_the_memory_handle_wins_and_is_reused() {
    let mut p = Process::from_pid(1, true).expect("must exist");
    assert_eq!(p.mem_fd(), None);
    // the first successful open installs the handle
    assert_eq!(p.open_mem(Some(MemFd { fd: 7 })), Some(()));
    assert_eq!(p.mem_fd(), Some(7));
    // a later opener does not replace it: the open is one-time
    assert_eq!(p.open_mem(Some(MemFd { fd: 9 })), Some(()));
    assert_eq!(p.mem_fd(), Some(7));
}

#[test]
fn failed_first_open_leaves_the_handle_closed() {
    let mut p = Process::from_pid(1, true).expect("must exist");
    assert_eq!(p.open_mem(None), None);
    assert_eq!(p.mem_fd(), None);
    // a later successful open still installs
    assert_eq!(p.open_mem(Some(MemFd { fd: 3 })), Some(()));
    assert_eq!(p.mem_fd(), Some(3));
}

#[test]
fn per_process_getters_parse_their_resources() {
    let p = Process::from_pid(5, true).expect("must exist");
    assert_eq!(p.name(b"cat\n"), Some("cat".to_string()));
    assert_eq!(p.cmdline(b"cat\0f\0"), vec!["cat".to_string(), "f".to_string()]);
    let env = p.environ(b"K=v\0");
    assert_eq!(env.len(), 1);
    assert_eq!(env[0].name, "K");
    assert_eq!(env[0].value, "v");
    assert_eq!(p.enum_thread(&vec![b"5".to_vec(), b"9".to_vec()]), vec![5, 9]);
}

#[test]
fn read_returns_the_filled_prefix_and_zero_transfer_fails() {
    let p = Process::from_pid(1, true).expect("must exist");
    let mut buf = vec![1u8, 2, 3, 4];
    assert_eq!(p.read(&mut buf, 2), Some(2));
    assert_eq!(buf, vec![1, 2]);
    let mut buf2 = vec![9u8; 4];
    assert_eq!(p.read(&mut buf2, 0), None);
    assert_eq!(buf2.len(), 4);
    assert_eq!(p.read(&mut buf2, 10), None);
}
