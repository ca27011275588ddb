use ckptmini_tui::models::memory::Permissions;
use ckptmini_tui::wrapper::parser::{list_checkpoints, parse_memory_regions, CheckpointCandidate};

#[test]
fn memory_map_listing() {
    let out = "PID 1234 memory map:\n\
               START            END              PERMS SIZE   PATH\n\
               ─────────────────────────────\n\
               00400000 00452000 r-xp 328K /usr/bin/cat\n\
               \x20   7ffd0000 7ffd1000 rw-p 4K [stack]\n\
               7f0000000000 7f0000001000 ---p 4K\n\
               1000 2000 rw-p 0 /path with  space\n\
               zz 2000 r--p 12M /lib/x.so\n\
               \n\
               3000 4000 rwx 1G a b\n";
    let rs = parse_memory_regions(out);
    assert_eq!(rs.len(), 5);

    assert_eq!((rs[0].start, rs[0].end), (0x400000, 0x452000));
    assert_eq!(rs[0].perms, Permissions { read: true, write: false, execute: true });
    assert_eq!(rs[0].path.as_deref(), Some("/usr/bin/cat"));
    assert_eq!((rs[0].offset, rs[0].inode), (0, 0));
    assert_eq!(rs[0].device, "");

    assert_eq!((rs[1].start, rs[1].end), (0x7ffd0000, 0x7ffd1000));
    assert_eq!(rs[1].path.as_deref(), Some("[stack]"));

    assert_eq!(rs[2].path.as_deref(), Some("0 /path with space"));
    assert_eq!(rs[2].perms, Permissions { read: true, write: true, execute: false });

    assert_eq!((rs[3].start, rs[3].end), (0, 0x2000));
    assert_eq!(rs[3].path.as_deref(), Some("/lib/x.so"));

    assert_eq!(rs[4].perms, Permissions { read: true, write: true, execute: true });
    assert_eq!(rs[4].path.as_deref(), Some("a b"));
}

#[test]
fn memory_map_of_nothing() {
    assert!(parse_memory_regions("").is_empty());
    assert!(parse_memory_regions("PID 1\nSTART END\n\n  \n").is_empty());
}

#[test]
fn overlong_address_reads_as_zero() {
    let rs = parse_memory_regions("10000000000000000 ffffffffffffffff r 4K x\n");
    assert_eq!(rs.len(), 1);
    assert_eq!((rs[0].start, rs[0].end), (0, u64::MAX));
    assert_eq!(rs[0].perms, Permissions { read: true, write: false, execute: false });
}

fn candidate(path: &str, ok: bool, modified: Option<i128>) -> CheckpointCandidate {
    CheckpointCandidate { path: path.to_string(), is_dir: true, has_mem: ok, has_regs: true, modified }
}

#[test]
fn checkpoints_newest_first() {
    let mut not_dir = candidate("/c/file", true, Some(50));
    not_dir.is_dir = false;
    let mut no_regs = candidate("/c/noregs", true, Some(60));
    no_regs.has_regs = false;
    let es = vec![
        candidate("/c/a", true, Some(10)),
        candidate("/c/b", true, None),
        candidate("/c/c", true, Some(30)),
        candidate("/c/nomem", false, Some(40)),
        not_dir,
        no_regs,
        candidate("/c/d", true, Some(10)),
        candidate("/c/e", true, None),
        candidate("/c/f", true, Some(-5)),
    ];
    assert_eq!(list_checkpoints(&es), vec!["/c/c", "/c/a", "/c/d", "/c/f", "/c/b", "/c/e"]);
    assert!(list_checkpoints(&Vec::new()).is_empty());
}

fn region_keys(s: &str) -> Vec<(u64, u64, Option<String>)> {
    parse_memory_regions(s).into_iter().map(|r| (r.start, r.end, r.path)).collect()
}

#[test]
fn joined_outputs_parse_as_both() {
    let parts = [
        "",
        "1000 2000 r-xp 4K /bin/a\r",
        "1000 2000 r-xp 4K /bin/a\n",
        "PID 1\n3000 4000 rw-p 4K [heap]\r\n",
        "  \n5000 6000 r--p 8 x y",
        "\r",
    ];
    for a in parts {
        for b in parts {
            let mut both = region_keys(a);
            both.extend(region_keys(b));
            assert_eq!(region_keys(&format!("{}\n{}", a, b)), both, "{:?} {:?}", a, b);
        }
    }
}
