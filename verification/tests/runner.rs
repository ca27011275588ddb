use ckptmini_tui::wrapper::runner::{
    addr_string, decimal_string, invocation_args, invocation_name, run_outcome, CkptminiRunner,
    Invocation, ToolOutput,
};

fn out(success: bool, stdout: &[u8], stderr: &[u8]) -> Option<ToolOutput> {
    Some(ToolOutput { success, stdout: stdout.to_vec(), stderr: stderr.to_vec() })
}

#[test]
fn runner_keeps_its_path() {
    let r = CkptminiRunner::new("/usr/local/bin/ckptmini".to_string());
    assert_eq!(r.binary_path(), "/usr/local/bin/ckptmini");
}

#[test]
fn argument_lists() {
    assert_eq!(invocation_args(&Invocation::Dump { pid: 42 }), vec!["dump", "42"]);
    assert_eq!(invocation_args(&Invocation::Show { pid: 0 }), vec!["show", "0"]);
    assert_eq!(
        invocation_args(&Invocation::Save { pid: 7, dir: "/tmp/c".to_string() }),
        vec!["save", "7", "/tmp/c"]
    );
    assert_eq!(
        invocation_args(&Invocation::Restore { pid: 7, dir: "/tmp/c".to_string() }),
        vec!["restore", "7", "/tmp/c"]
    );
    assert_eq!(
        invocation_args(&Invocation::ReadMemory { pid: 9, addr: 0x7ffd_0000, len: 4096 }),
        vec!["read", "9", "0x7ffd0000", "4096"]
    );
    assert_eq!(
        invocation_args(&Invocation::Resolve { pid: 9, symbol: "malloc".to_string() }),
        vec!["resolve", "9", "malloc"]
    );
    assert_eq!(
        invocation_args(&Invocation::Parasite { pid: 3, dir: "/d".to_string() }),
        vec!["parasite", "3", "/d"]
    );
    assert_eq!(
        invocation_args(&Invocation::InjectShellcode { pid: 3, shellcode: "9090".to_string() }),
        vec!["inject_shellcode", "3", "9090"]
    );
    assert_eq!(
        invocation_args(&Invocation::Write { pid: 1, addr: 255, hex: "ff".to_string() }),
        vec!["write", "1", "0xff", "ff"]
    );
    assert_eq!(
        invocation_args(&Invocation::WriteStr { pid: 1, addr: 0, text: "hi".to_string() }),
        vec!["write_str", "1", "0x0", "hi"]
    );
    assert_eq!(
        invocation_args(&Invocation::WriteDump { dir: "/d".to_string(), addr: 16, hex: "00".to_string() }),
        vec!["write_dump", "/d", "0x10", "00"]
    );
    assert_eq!(
        invocation_args(&Invocation::WriteDumpStr { dir: "/d".to_string(), addr: 16, text: "s".to_string() }),
        vec!["write_dump_str", "/d", "0x10", "s"]
    );
    assert_eq!(
        invocation_args(&Invocation::Upload { pid: 2, hex: "aa".to_string(), perms: Some("rwx".to_string()) }),
        vec!["upload", "2", "aa", "rwx"]
    );
    assert_eq!(
        invocation_args(&Invocation::Upload { pid: 2, hex: "aa".to_string(), perms: None }),
        vec!["upload", "2", "aa"]
    );
    assert_eq!(
        invocation_args(&Invocation::UploadStr { pid: 2, text: "t".to_string(), perms: Some("r".to_string()) }),
        vec!["upload", "2", "--str", "t", "r"]
    );
    assert_eq!(
        invocation_args(&Invocation::Breakpoint { pid: 5, addr: 0xdeadbeef }),
        vec!["breakpoint", "5", "0xdeadbeef"]
    );
    assert_eq!(
        invocation_args(&Invocation::Call {
            pid: 5,
            addr: 0x10,
            args: vec!["1".to_string(), "two".to_string()]
        }),
        vec!["call", "5", "0x10", "1", "two"]
    );
    assert_eq!(
        invocation_args(&Invocation::LoadSo { pid: 5, path: "/x.so".to_string() }),
        vec!["load_so", "5", "/x.so"]
    );
    assert_eq!(
        invocation_args(&Invocation::Watch { pid: u32::MAX, addr: u64::MAX }),
        vec!["watch", "4294967295", "0xffffffffffffffff"]
    );
}

#[test]
fn names() {
    assert_eq!(invocation_name(&Invocation::ReadMemory { pid: 1, addr: 0, len: 0 }), "read");
    assert_eq!(invocation_name(&Invocation::UploadStr { pid: 1, text: String::new(), perms: None }), "upload");
    assert_eq!(invocation_name(&Invocation::InjectShellcode { pid: 1, shellcode: String::new() }), "inject_shellcode");
}

#[test]
fn numbers_as_text() {
    assert_eq!(decimal_string(0), "0");
    assert_eq!(decimal_string(1234567890123), "1234567890123");
    assert_eq!(decimal_string(u64::MAX), "18446744073709551615");
    assert_eq!(addr_string(0), "0x0");
    assert_eq!(addr_string(0xabc), "0xabc");
    for n in [1u64, 9, 10, 99, 100, 65535, 1 << 40, u64::MAX - 1] {
        assert_eq!(decimal_string(n), n.to_string());
        assert_eq!(addr_string(n), format!("0x{:x}", n));
    }
}

#[test]
fn outcome_when_tool_cannot_start() {
    assert_eq!(
        run_outcome(&Invocation::Dump { pid: 1 }, None),
        Err("Failed to run ckptmini dump".to_string())
    );
    assert_eq!(
        run_outcome(&Invocation::Save { pid: 1, dir: "/d".to_string() }, None),
        Err("Failed to run ckptmini save".to_string())
    );
}

#[test]
fn outcome_of_reads_ignores_status() {
    assert_eq!(run_outcome(&Invocation::Dump { pid: 1 }, out(false, b"map", b"err")), Ok("map".to_string()));
    assert_eq!(run_outcome(&Invocation::Show { pid: 1 }, out(true, b"info", b"")), Ok("info".to_string()));
    assert_eq!(
        run_outcome(&Invocation::ReadMemory { pid: 1, addr: 0, len: 1 }, out(false, b"\xffab", b"")),
        Ok("\u{fffd}ab".to_string())
    );
}

#[test]
fn outcome_of_failing_commands() {
    assert_eq!(
        run_outcome(&Invocation::Save { pid: 1, dir: "/d".to_string() }, out(false, b"", b"no such process")),
        Err("ckptmini save failed: no such process".to_string())
    );
    assert_eq!(
        run_outcome(&Invocation::Resolve { pid: 1, symbol: "x".to_string() }, out(false, b"ok", b"boom")),
        Err("ckptmini resolve failed: boom".to_string())
    );
    assert_eq!(
        run_outcome(&Invocation::UploadStr { pid: 1, text: "x".to_string(), perms: None }, out(false, b"", b"e")),
        Err("ckptmini upload failed: e".to_string())
    );
}

#[test]
fn outcome_of_succeeding_commands() {
    assert_eq!(
        run_outcome(&Invocation::Save { pid: 1, dir: "/d".to_string() }, out(true, b"saved", b"")),
        Ok(String::new())
    );
    assert_eq!(
        run_outcome(&Invocation::Parasite { pid: 1, dir: "/d".to_string() }, out(true, b"x", b"")),
        Ok(String::new())
    );
    assert_eq!(
        run_outcome(&Invocation::Resolve { pid: 1, symbol: "x".to_string() }, out(true, b"0x1234\n", b"")),
        Ok("0x1234\n".to_string())
    );
}
