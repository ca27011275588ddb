use ckptmini_tui::models::checkpoint::{CheckpointDir, CheckpointInfo, MemEntry};
use ckptmini_tui::models::memory::{MemoryRegion, Permissions};
use ckptmini_tui::models::process::{
    collect_processes, parse_status, process_from_entry, sort_processes_by, ProcEntry, ProcessInfo,
    ProcessState,
};
use ckptmini_tui::ui::app::SortBy;

fn proc_entry(name: &str, cmdline: Option<&[u8]>, status: Option<&str>) -> ProcEntry {
    ProcEntry {
        name: name.to_string(),
        is_dir: true,
        cmdline: cmdline.map(|b| b.to_vec()),
        status: status.map(|s| s.to_string()),
    }
}

fn process(pid: u32, name: &str, memory_total: u64) -> ProcessInfo {
    ProcessInfo { pid, name: name.to_string(), memory_total, threads: 1, state: ProcessState::Unknown }
}

fn size_by_float(bytes: u64) -> String {
    let kb = 1024u64;
    let mb = kb * 1024;
    let gb = mb * 1024;
    if bytes >= gb {
        format!("{:.1}GB", bytes as f64 / gb as f64)
    } else if bytes >= mb {
        format!("{:.1}MB", bytes as f64 / mb as f64)
    } else if bytes >= kb {
        format!("{:.1}KB", bytes as f64 / kb as f64)
    } else {
        format!("{}B", bytes)
    }
}

#[test]
fn format_size_exact_values() {
    assert_eq!(MemoryRegion::format_size(0), "0B");
    assert_eq!(MemoryRegion::format_size(1023), "1023B");
    assert_eq!(MemoryRegion::format_size(1024), "1.0KB");
    assert_eq!(MemoryRegion::format_size(1536), "1.5KB");
    assert_eq!(MemoryRegion::format_size(1024 * 1024), "1.0MB");
    assert_eq!(MemoryRegion::format_size(3 * 1024 * 1024 * 1024), "3.0GB");
}

#[test]
fn format_size_matches_float_formatting() {
    let samples: Vec<u64> = vec![
        1, 999, 1024, 1075, 1126, 1280, 1331, 2047, 2048, 10_240, 1_048_575, 1_048_576,
        1_310_720, 1_363_148, 5_000_000, 104_857_599, 1_073_741_823, 1_073_741_824,
        1_342_177_280, 1_395_864_371, 9_007_199_254_740_993, u64::MAX, u64::MAX - 1,
        18_446_744_073_709_551_000, 1_099_511_627_776, 1_181_116_006_400,
    ];
    for b in samples {
        assert_eq!(MemoryRegion::format_size(b), size_by_float(b), "bytes = {}", b);
    }
    let mut b: u64 = 1;
    while b < u64::MAX / 3 {
        assert_eq!(MemoryRegion::format_size(b), size_by_float(b), "bytes = {}", b);
        assert_eq!(MemoryRegion::format_size(b + 1), size_by_float(b + 1), "bytes = {}", b + 1);
        b = b * 3 + 7;
    }
}

#[test]
fn region_size_and_human_size() {
    let r = MemoryRegion {
        start: 0x1000,
        end: 0x3000,
        perms: Permissions { read: true, write: false, execute: true },
        offset: 0,
        device: String::new(),
        inode: 0,
        path: Some("/lib/libc.so".to_string()),
    };
    assert_eq!(r.size(), 0x2000);
    assert_eq!(r.human_size(), "8.0KB");
}

#[test]
fn permissions_text_and_parse() {
    let p = Permissions { read: true, write: false, execute: true };
    assert_eq!(p.as_string(), "r-x");
    let all = Permissions::parse(&"rwxp".chars().collect());
    assert_eq!(all, Permissions { read: true, write: true, execute: true });
    let short = Permissions::parse(&"r".chars().collect());
    assert_eq!(short, Permissions { read: true, write: false, execute: false });
    let none = Permissions::parse(&Vec::new());
    assert_eq!(none.as_string(), "---");
}

#[test]
fn permissions_round_trip_on_all_values() {
    for bits in 0..8u8 {
        let p = Permissions { read: bits & 1 != 0, write: bits & 2 != 0, execute: bits & 4 != 0 };
        let text: Vec<char> = p.as_string().chars().collect();
        assert_eq!(Permissions::parse(&text), p);
    }
}

#[test]
fn state_codes() {
    assert_eq!(ProcessState::from_code(&vec!['R']), ProcessState::Running);
    assert_eq!(ProcessState::from_code(&vec!['S']), ProcessState::Sleeping);
    assert_eq!(ProcessState::from_code(&vec!['T']), ProcessState::Stopped);
    assert_eq!(ProcessState::from_code(&vec!['Z']), ProcessState::Zombie);
    assert_eq!(ProcessState::from_code(&vec!['D']), ProcessState::Unknown);
    assert_eq!(ProcessState::from_code(&vec!['R', 'S']), ProcessState::Unknown);
    assert_eq!(ProcessState::from_code(&Vec::new()), ProcessState::Unknown);
    assert_eq!(ProcessState::from("R"), ProcessState::Running);
    assert_eq!(ProcessState::from("S"), ProcessState::Sleeping);
    assert_eq!(ProcessState::from("T"), ProcessState::Stopped);
    assert_eq!(ProcessState::from("Z"), ProcessState::Zombie);
    assert_eq!(ProcessState::from("U"), ProcessState::Unknown);
    assert_eq!(ProcessState::from("Rs"), ProcessState::Unknown);
}

#[test]
fn status_file_fields() {
    let content = "Name:\tbash\nState:\tS (sleeping)\nThreads:\t4\nVmRSS:\t    1234 kB\n";
    assert_eq!(parse_status(content), (1234, 4, ProcessState::Sleeping));
    assert_eq!(parse_status(""), (0, 1, ProcessState::Unknown));
    assert_eq!(parse_status("Threads:\tmany\nVmRSS:\tlots kB\n"), (0, 1, ProcessState::Unknown));
    assert_eq!(parse_status("State:\t\nThreads: 2\n"), (0, 2, ProcessState::Unknown));
    assert_eq!(parse_status("VmRSS: 5 kB\nVmRSS: 7 kB\nState: Z (zombie)\n"), (7, 1, ProcessState::Zombie));
}

#[test]
fn entry_becomes_process() {
    let e = proc_entry(
        "42",
        Some(b"/usr/bin/vim\0file.txt\0"),
        Some("State:\tR (running)\nThreads:\t3\nVmRSS:\t100 kB\n"),
    );
    let p = process_from_entry(&e).unwrap();
    assert_eq!(p.pid, 42);
    assert_eq!(p.name, "/usr/bin/vim file.txt ");
    assert_eq!(p.memory_total, 100 * 1024);
    assert_eq!(p.threads, 3);
    assert_eq!(p.state, ProcessState::Running);
}

#[test]
fn entry_without_status_gets_defaults() {
    let p = process_from_entry(&proc_entry("7", Some(b"init"), None)).unwrap();
    assert_eq!((p.pid, p.memory_total, p.threads, p.state), (7, 0, 1, ProcessState::Unknown));
    assert_eq!(p.name, "init");
}

#[test]
fn entries_that_are_not_processes() {
    assert!(process_from_entry(&proc_entry("self", Some(b"x"), None)).is_none());
    assert!(process_from_entry(&proc_entry("12", None, None)).is_none());
    assert!(process_from_entry(&proc_entry("12", Some(b""), None)).is_none());
    assert!(process_from_entry(&proc_entry("4294967296", Some(b"x"), None)).is_none());
    let mut file = proc_entry("12", Some(b"x"), None);
    file.is_dir = false;
    assert!(process_from_entry(&file).is_none());
    let p = process_from_entry(&proc_entry("+12", Some(b"x"), None)).unwrap();
    assert_eq!(p.pid, 12);
}

#[test]
fn invalid_utf8_command_line_is_replaced() {
    let p = process_from_entry(&proc_entry("5", Some(&[0x66, 0xff, 0x6f]), None)).unwrap();
    assert_eq!(p.name, "f\u{fffd}o");
}

#[test]
fn listing_is_largest_memory_first_and_stable() {
    let entries = vec![
        proc_entry("1", Some(b"a"), Some("VmRSS: 10 kB\n")),
        proc_entry("2", Some(b"b"), Some("VmRSS: 30 kB\n")),
        proc_entry("abc", Some(b"skip"), None),
        proc_entry("3", Some(b"c"), Some("VmRSS: 10 kB\n")),
        proc_entry("4", Some(b"d"), Some("VmRSS: 20 kB\n")),
    ];
    let ps = collect_processes(&entries);
    let pids: Vec<u32> = ps.iter().map(|p| p.pid).collect();
    assert_eq!(pids, vec![2, 4, 1, 3]);
}

#[test]
fn sorting_by_each_field() {
    let ps = vec![process(30, "Zsh", 5), process(10, "bash", 7), process(20, "awk", 5)];
    let pids = |v: Vec<ProcessInfo>| v.iter().map(|p| p.pid).collect::<Vec<u32>>();
    assert_eq!(pids(sort_processes_by(&ps, SortBy::Memory, false)), vec![10, 30, 20]);
    assert_eq!(pids(sort_processes_by(&ps, SortBy::Memory, true)), vec![30, 20, 10]);
    assert_eq!(pids(sort_processes_by(&ps, SortBy::Pid, true)), vec![10, 20, 30]);
    assert_eq!(pids(sort_processes_by(&ps, SortBy::Pid, false)), vec![30, 20, 10]);
    assert_eq!(pids(sort_processes_by(&ps, SortBy::Name, true)), vec![20, 10, 30]);
    assert_eq!(pids(sort_processes_by(&ps, SortBy::Name, false)), vec![30, 10, 20]);
}

#[test]
fn sorting_keeps_every_process() {
    let ps = vec![process(3, "c", 1), process(1, "a", 1), process(2, "b", 9), process(1, "a", 4)];
    let mut sorted: Vec<(u32, u64)> =
        sort_processes_by(&ps, SortBy::Pid, true).iter().map(|p| (p.pid, p.memory_total)).collect();
    let mut orig: Vec<(u32, u64)> = ps.iter().map(|p| (p.pid, p.memory_total)).collect();
    sorted.sort();
    orig.sort();
    assert_eq!(sorted, orig);
}

fn ckpt_dir(meta: Option<&str>, entries: Option<Vec<(&str, Option<u64>)>>) -> CheckpointDir {
    CheckpointDir {
        path: "/tmp/checkpoints/ckpt_42_1700000000".to_string(),
        is_dir: true,
        has_mem: true,
        mem_entries: entries.map(|es| {
            es.into_iter().map(|(n, l)| MemEntry { name: n.to_string(), len: l }).collect()
        }),
        created: Some(1_700_000_000),
        meta: meta.map(|m| m.to_string()),
    }
}

#[test]
fn checkpoint_from_directory_with_meta() {
    let d = ckpt_dir(
        Some("{\n  \"command\": \"sleep 100\",\n  \"pid\": 42\n}"),
        Some(vec![("0.bin", Some(4096)), ("1.bin", Some(8192)), ("maps", Some(100)), (".bin", Some(1)), ("x", None)]),
    );
    let c = CheckpointInfo::from_dir(&d).unwrap();
    assert_eq!(c.path, "/tmp/checkpoints/ckpt_42_1700000000");
    assert_eq!(c.pid, 42);
    assert_eq!(c.created, 1_700_000_000);
    assert_eq!(c.regions, 2);
    assert_eq!(c.size_bytes, 4096 + 8192 + 100 + 1);
    assert_eq!(c.command, "sleep 100");
    assert_eq!(c.human_size(), "12.1KB");
}

#[test]
fn checkpoint_without_meta_uses_directory_name() {
    let c = CheckpointInfo::from_dir(&ckpt_dir(None, None)).unwrap();
    assert_eq!(c.pid, 0);
    assert_eq!(c.regions, 0);
    assert_eq!(c.size_bytes, 0);
    assert_eq!(c.command, "ckpt_42_1700000000");
    let bad = CheckpointInfo::from_dir(&ckpt_dir(Some("not json"), Some(vec![]))).unwrap();
    assert_eq!(bad.pid, 0);
    assert_eq!(bad.command, "ckpt_42_1700000000");
    let wrong_types =
        CheckpointInfo::from_dir(&ckpt_dir(Some("{\"pid\": \"7\", \"command\": 3}"), None)).unwrap();
    assert_eq!(wrong_types.pid, 0);
    assert_eq!(wrong_types.command, "ckpt_42_1700000000");
}

#[test]
fn checkpoint_pid_is_truncated_to_32_bits() {
    let c = CheckpointInfo::from_dir(&ckpt_dir(Some("{\"pid\": 4294967298}"), None)).unwrap();
    assert_eq!(c.pid, 2);
}

#[test]
fn not_a_checkpoint_directory() {
    let mut d = ckpt_dir(None, None);
    d.has_mem = false;
    assert!(CheckpointInfo::from_dir(&d).is_none());
    let mut f = ckpt_dir(None, None);
    f.is_dir = false;
    assert!(CheckpointInfo::from_dir(&f).is_none());
    let mut unknown_time = ckpt_dir(None, None);
    unknown_time.created = None;
    assert_eq!(CheckpointInfo::from_dir(&unknown_time).unwrap().created, 0);
}

fn made_at(created: u64) -> CheckpointInfo {
    CheckpointInfo {
        path: "/c".to_string(),
        pid: 1,
        created,
        regions: 0,
        size_bytes: 0,
        command: String::new(),
    }
}

#[test]
fn ages() {
    let c = made_at(1000);
    assert_eq!(c.age_string_at(1000), "0s ago");
    assert_eq!(c.age_string_at(1059), "59s ago");
    assert_eq!(c.age_string_at(1060), "1m ago");
    assert_eq!(c.age_string_at(1000 + 3599), "59m ago");
    assert_eq!(c.age_string_at(1000 + 3600), "1h ago");
    assert_eq!(c.age_string_at(1000 + 86399), "23h ago");
    assert_eq!(c.age_string_at(1000 + 86400 * 3), "3d ago");
    assert_eq!(c.age_string_at(10), "0s ago");
}

#[test]
fn age_now_of_a_future_checkpoint() {
    assert_eq!(made_at(u64::MAX).age_string(), "0s ago");
    assert!(made_at(0).age_string().ends_with("d ago"));
}
