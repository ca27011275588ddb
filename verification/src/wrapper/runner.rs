//! Invoking the checkpoint tool: the argument list of each subcommand, and what a finished run
//! means (its output text, or an error message).
use vstd::prelude::*;
use crate::foreign::{lossy_text, utf8_lossy};
use crate::num::{decimal, hex, radix_string};
use crate::text::string_from;
use crate::text::string_views;

verus! {

/// Runs the checkpoint tool found at a fixed path.
pub struct CkptminiRunner {
    binary_path: String,
}

impl CkptminiRunner {
    /// The path of the tool's executable.
    pub closed spec fn binary(&self) -> Seq<char> {
        self.binary_path@
    }

    /// A runner for the tool at `binary_path`.
    pub fn new(binary_path: String) -> (r: Self)
        ensures
            r.binary() == binary_path@,
    {
        CkptminiRunner { binary_path }
    }

    /// The path of the tool's executable.
    pub fn binary_path(&self) -> (r: &String)
        ensures
            r@ == self.binary(),
    {
        &self.binary_path
    }
}

/// One use of the tool, with its arguments.
pub enum Invocation {
    Dump { pid: u32 },
    Show { pid: u32 },
    Save { pid: u32, dir: String },
    Restore { pid: u32, dir: String },
    ReadMemory { pid: u32, addr: u64, len: usize },
    Resolve { pid: u32, symbol: String },
    Parasite { pid: u32, dir: String },
    InjectShellcode { pid: u32, shellcode: String },
    Write { pid: u32, addr: u64, hex: String },
    WriteStr { pid: u32, addr: u64, text: String },
    WriteDump { dir: String, addr: u64, hex: String },
    WriteDumpStr { dir: String, addr: u64, text: String },
    Upload { pid: u32, hex: String, perms: Option<String> },
    UploadStr { pid: u32, text: String, perms: Option<String> },
    Breakpoint { pid: u32, addr: u64 },
    Call { pid: u32, addr: u64, args: Vec<String> },
    LoadSo { pid: u32, path: String },
    Watch { pid: u32, addr: u64 },
}

/// An address as the tool reads it: `"0x"` and lower-case hexadecimal digits.
pub open spec fn addr_text(addr: u64) -> Seq<char> {
    seq!['0', 'x'] + hex(addr as nat)
}

/// The optional argument as a list of zero or one arguments.
pub open spec fn opt_arg(o: Option<String>) -> Seq<Seq<char>> {
    match o {
        Some(s) => seq![s@],
        None => seq![],
    }
}

/// The arguments that follow the executable for each use of the tool.
pub open spec fn args_of(inv: Invocation) -> Seq<Seq<char>> {
    match inv {
        Invocation::Dump { pid } => seq!["dump"@, decimal(pid as nat)],
        Invocation::Show { pid } => seq!["show"@, decimal(pid as nat)],
        Invocation::Save { pid, dir } => seq!["save"@, decimal(pid as nat), dir@],
        Invocation::Restore { pid, dir } => seq!["restore"@, decimal(pid as nat), dir@],
        Invocation::ReadMemory { pid, addr, len } => seq![
            "read"@,
            decimal(pid as nat),
            addr_text(addr),
            decimal(len as nat),
        ],
        Invocation::Resolve { pid, symbol } => seq!["resolve"@, decimal(pid as nat), symbol@],
        Invocation::Parasite { pid, dir } => seq!["parasite"@, decimal(pid as nat), dir@],
        Invocation::InjectShellcode { pid, shellcode } => seq![
            "inject_shellcode"@,
            decimal(pid as nat),
            shellcode@,
        ],
        Invocation::Write { pid, addr, hex } => seq![
            "write"@,
            decimal(pid as nat),
            addr_text(addr),
            hex@,
        ],
        Invocation::WriteStr { pid, addr, text } => seq![
            "write_str"@,
            decimal(pid as nat),
            addr_text(addr),
            text@,
        ],
        Invocation::WriteDump { dir, addr, hex } => seq!["write_dump"@, dir@, addr_text(addr), hex@],
        Invocation::WriteDumpStr { dir, addr, text } => seq![
            "write_dump_str"@,
            dir@,
            addr_text(addr),
            text@,
        ],
        Invocation::Upload { pid, hex, perms } => seq!["upload"@, decimal(pid as nat), hex@]
            + opt_arg(perms),
        Invocation::UploadStr { pid, text, perms } => seq![
            "upload"@,
            decimal(pid as nat),
            "--str"@,
            text@,
        ] + opt_arg(perms),
        Invocation::Breakpoint { pid, addr } => seq![
            "breakpoint"@,
            decimal(pid as nat),
            addr_text(addr),
        ],
        Invocation::Call { pid, addr, args } => seq!["call"@, decimal(pid as nat), addr_text(addr)]
            + string_views(args@),
        Invocation::LoadSo { pid, path } => seq!["load_so"@, decimal(pid as nat), path@],
        Invocation::Watch { pid, addr } => seq!["watch"@, decimal(pid as nat), addr_text(addr)],
    }
}

/// The name the tool's messages use for a use: the subcommand, with both kinds of upload
/// called `upload`.
pub open spec fn name_of(inv: Invocation) -> Seq<char> {
    match inv {
        Invocation::Dump { .. } => "dump"@,
        Invocation::Show { .. } => "show"@,
        Invocation::Save { .. } => "save"@,
        Invocation::Restore { .. } => "restore"@,
        Invocation::ReadMemory { .. } => "read"@,
        Invocation::Resolve { .. } => "resolve"@,
        Invocation::Parasite { .. } => "parasite"@,
        Invocation::InjectShellcode { .. } => "inject_shellcode"@,
        Invocation::Write { .. } => "write"@,
        Invocation::WriteStr { .. } => "write_str"@,
        Invocation::WriteDump { .. } => "write_dump"@,
        Invocation::WriteDumpStr { .. } => "write_dump_str"@,
        Invocation::Upload { .. } => "upload"@,
        Invocation::UploadStr { .. } => "upload"@,
        Invocation::Breakpoint { .. } => "breakpoint"@,
        Invocation::Call { .. } => "call"@,
        Invocation::LoadSo { .. } => "load_so"@,
        Invocation::Watch { .. } => "watch"@,
    }
}

/// Whether a failed exit status makes the use fail: every use but `dump`, `show` and `read`.
pub open spec fn checks_status(inv: Invocation) -> bool {
    !(inv is Dump || inv is Show || inv is ReadMemory)
}

/// Whether the use answers with the tool's output: every use but `save`, `restore` and
/// `parasite`, which answer with nothing.
pub open spec fn returns_output(inv: Invocation) -> bool {
    !(inv is Save || inv is Restore || inv is Parasite)
}

/// What a run of the tool left: whether it exited successfully and what it wrote.
pub struct ToolOutput {
    pub success: bool,
    pub stdout: Vec<u8>,
    pub stderr: Vec<u8>,
}

/// What a use of the tool answers, given whether it could be started and how it ended: when it
/// could not be started, the error `"Failed to run ckptmini <name>"`; when it failed and its
/// status counts, `"ckptmini <name> failed: "` and its error output; else its output (empty for
/// the uses that answer with nothing). Output bytes are read as UTF-8, invalid sequences replaced.
pub open spec fn outcome_of(inv: Invocation, run: Option<ToolOutput>) -> Result<Seq<char>, Seq<char>> {
    match run {
        None => Err("Failed to run ckptmini "@ + name_of(inv)),
        Some(o) => if checks_status(inv) && !o.success {
            Err("ckptmini "@ + name_of(inv) + " failed: "@ + lossy_text(o.stderr@))
        } else if returns_output(inv) {
            Ok(lossy_text(o.stdout@))
        } else {
            Ok(seq![])
        },
    }
}

/// The decimal digits of `n`.
pub fn decimal_string(n: u64) -> (r: String)
    ensures
        r@ == decimal(n as nat),
{
    let v = radix_string(n, 10);
    string_from(&v)
}

/// An address as `"0x"` and lower-case hexadecimal digits.
pub fn addr_string(addr: u64) -> (r: String)
    ensures
        r@ == addr_text(addr),
{
    let mut v = vec!['0', 'x'];
    let h = radix_string(addr, 16);
    let ghost head = v@;
    v.append(&mut h.clone());
    proof {
        assert(head =~= seq!['0', 'x']);
        assert(v@ =~= head + h@);
    }
    string_from(&v)
}

/// A copy of a string.
fn copy(s: &String) -> (r: String)
    ensures
        r@ == s@,
{
    s.clone()
}

/// A `String` of a literal.
fn lit(s: &str) -> (r: String)
    ensures
        r@ == s@,
{
    String::from_str(s)
}

/// The arguments of a use of the tool, after the executable.
pub fn invocation_args(inv: &Invocation) -> (r: Vec<String>)
    ensures
        string_views(r@) == args_of(*inv),
{
    let mut r: Vec<String> = Vec::new();
    match inv {
        Invocation::Dump { pid } => {
            r.push(lit("dump"));
            r.push(decimal_string(*pid as u64));
        },
        Invocation::Show { pid } => {
            r.push(lit("show"));
            r.push(decimal_string(*pid as u64));
        },
        Invocation::Save { pid, dir } => {
            r.push(lit("save"));
            r.push(decimal_string(*pid as u64));
            r.push(copy(dir));
        },
        Invocation::Restore { pid, dir } => {
            r.push(lit("restore"));
            r.push(decimal_string(*pid as u64));
            r.push(copy(dir));
        },
        Invocation::ReadMemory { pid, addr, len } => {
            r.push(lit("read"));
            r.push(decimal_string(*pid as u64));
            r.push(addr_string(*addr));
            r.push(decimal_string(*len as u64));
        },
        Invocation::Resolve { pid, symbol } => {
            r.push(lit("resolve"));
            r.push(decimal_string(*pid as u64));
            r.push(copy(symbol));
        },
        Invocation::Parasite { pid, dir } => {
            r.push(lit("parasite"));
            r.push(decimal_string(*pid as u64));
            r.push(copy(dir));
        },
        Invocation::InjectShellcode { pid, shellcode } => {
            r.push(lit("inject_shellcode"));
            r.push(decimal_string(*pid as u64));
            r.push(copy(shellcode));
        },
        Invocation::Write { pid, addr, hex } => {
            r.push(lit("write"));
            r.push(decimal_string(*pid as u64));
            r.push(addr_string(*addr));
            r.push(copy(hex));
        },
        Invocation::WriteStr { pid, addr, text } => {
            r.push(lit("write_str"));
            r.push(decimal_string(*pid as u64));
            r.push(addr_string(*addr));
            r.push(copy(text));
        },
        Invocation::WriteDump { dir, addr, hex } => {
            r.push(lit("write_dump"));
            r.push(copy(dir));
            r.push(addr_string(*addr));
            r.push(copy(hex));
        },
        Invocation::WriteDumpStr { dir, addr, text } => {
            r.push(lit("write_dump_str"));
            r.push(copy(dir));
            r.push(addr_string(*addr));
            r.push(copy(text));
        },
        Invocation::Upload { pid, hex, perms } => {
            r.push(lit("upload"));
            r.push(decimal_string(*pid as u64));
            r.push(copy(hex));
            match perms {
                Some(p) => r.push(copy(p)),
                None => {},
            }
        },
        Invocation::UploadStr { pid, text, perms } => {
            r.push(lit("upload"));
            r.push(decimal_string(*pid as u64));
            r.push(lit("--str"));
            r.push(copy(text));
            match perms {
                Some(p) => r.push(copy(p)),
                None => {},
            }
        },
        Invocation::Breakpoint { pid, addr } => {
            r.push(lit("breakpoint"));
            r.push(decimal_string(*pid as u64));
            r.push(addr_string(*addr));
        },
        Invocation::Call { pid, addr, args } => {
            r.push(lit("call"));
            r.push(decimal_string(*pid as u64));
            r.push(addr_string(*addr));
            for i in 0..args.len()
                invariant
                    string_views(r@) == seq!["call"@, decimal(*pid as nat), addr_text(*addr)]
                        + string_views(args@).take(i as int),
            {
                let ghost before = r@;
                r.push(copy(&args[i]));
                proof {
                    assert(string_views(r@) =~= string_views(before).push(args@[i as int]@));
                    assert(string_views(args@).take(i as int + 1) =~= string_views(args@).take(
                        i as int,
                    ).push(args@[i as int]@));
                }
            }
            proof {
                assert(string_views(args@).take(args@.len() as int) =~= string_views(args@));
            }
        },
        Invocation::LoadSo { pid, path } => {
            r.push(lit("load_so"));
            r.push(decimal_string(*pid as u64));
            r.push(copy(path));
        },
        Invocation::Watch { pid, addr } => {
            r.push(lit("watch"));
            r.push(decimal_string(*pid as u64));
            r.push(addr_string(*addr));
        },
    }
    proof {
        assert(string_views(r@) =~= args_of(*inv));
    }
    r
}

/// The name the tool's messages use for a use.
pub fn invocation_name(inv: &Invocation) -> (r: &'static str)
    ensures
        r@ == name_of(*inv),
{
    match inv {
        Invocation::Dump { .. } => "dump",
        Invocation::Show { .. } => "show",
        Invocation::Save { .. } => "save",
        Invocation::Restore { .. } => "restore",
        Invocation::ReadMemory { .. } => "read",
        Invocation::Resolve { .. } => "resolve",
        Invocation::Parasite { .. } => "parasite",
        Invocation::InjectShellcode { .. } => "inject_shellcode",
        Invocation::Write { .. } => "write",
        Invocation::WriteStr { .. } => "write_str",
        Invocation::WriteDump { .. } => "write_dump",
        Invocation::WriteDumpStr { .. } => "write_dump_str",
        Invocation::Upload { .. } => "upload",
        Invocation::UploadStr { .. } => "upload",
        Invocation::Breakpoint { .. } => "breakpoint",
        Invocation::Call { .. } => "call",
        Invocation::LoadSo { .. } => "load_so",
        Invocation::Watch { .. } => "watch",
    }
}

/// What a use of the tool answers, given how its run went (`None` when it could not be started).
pub fn run_outcome(inv: &Invocation, run: Option<ToolOutput>) -> (r: Result<String, String>)
    ensures
        match r {
            Ok(s) => outcome_of(*inv, run) == Ok::<Seq<char>, Seq<char>>(s@),
            Err(e) => outcome_of(*inv, run) == Err::<Seq<char>, Seq<char>>(e@),
        },
{
    let name = invocation_name(inv);
    match run {
        None => {
            let mut e = String::from_str("Failed to run ckptmini ");
            e.append(name);
            Err(e)
        },
        Some(o) => {
            let checks = match inv {
                Invocation::Dump { .. } | Invocation::Show { .. } | Invocation::ReadMemory { .. } => false,
                _ => true,
            };
            let answers = match inv {
                Invocation::Save { .. } | Invocation::Restore { .. } | Invocation::Parasite { .. } => false,
                _ => true,
            };
            if checks && !o.success {
                let mut e = String::from_str("ckptmini ");
                e.append(name);
                e.append(" failed: ");
                let detail = utf8_lossy(o.stderr.as_slice());
                e.append(detail.as_str());
                Err(e)
            } else if answers {
                Ok(utf8_lossy(o.stdout.as_slice()))
            } else {
                Ok(String::new())
            }
        },
    }
}

} // verus!
