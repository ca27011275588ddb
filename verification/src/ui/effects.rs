//! What the interface does with the results of the work it asked for: fresh lists, tool
//! output, and the outcome of tool runs.
use vstd::prelude::*;
use crate::foreign::{
    lowercase, lowercase_of, meta_json, meta_json_text, path_debug,
    path_debug_text,
};
use crate::models::checkpoint::{checkpoint_views, CheckpointInfo, CheckpointView};
use crate::models::memory::{perms_text, span_len, MemoryRegion, RegionView};
use crate::models::process::{process_views, ProcessInfo, ProcessView};
use crate::num::{decimal, digit_char, hex, radix_round_trip, radix_string};
use crate::text::{chars_of, contains, contains_seq, lines_of, push_chars, string_from};
use crate::ui::app::{
    selected_proc, sorted_state, with_error, with_status, without_status, App, AppView, Tab,
};
use crate::ui::command::{Command, CommandView};
use crate::ui::hexdump::{dump_text, format_hex_dump};
use crate::wrapper::parser::{parse_memory_regions, region_views, regions_of};
use crate::wrapper::runner::decimal_string;

verus! {

/// The state after a fresh process listing: the list, cursor at the top, ordered as chosen; or,
/// when listing failed, the error `"Failed to list processes: <error>"`.
pub open spec fn after_process_listing(v: AppView, listed: Result<Seq<ProcessView>, Seq<char>>) -> AppView {
    match listed {
        Ok(ps) => sorted_state(AppView { processes: ps, process_scroll: 0, ..v }),
        Err(e) => with_error(v, "Failed to list processes: "@ + e),
    }
}

/// Replaces the process list with a fresh listing (or reports why there is none).
pub fn refresh_processes(app: &mut App, listed: Result<Vec<ProcessInfo>, String>)
    ensures
        final(app)@ == after_process_listing(
            old(app)@,
            match listed {
                Ok(ps) => Ok(process_views(ps@)),
                Err(e) => Err(e@),
            },
        ),
{
    match listed {
        Ok(ps) => {
            app.processes = ps;
            app.process_scroll = 0;
            app.sort_processes();
        },
        Err(e) => {
            let mut m = String::from_str("Failed to list processes: ");
            m.append(e.as_str());
            app.set_error(m);
        },
    }
}

/// The state after a fresh checkpoint listing: the list, cursor at the top.
pub open spec fn after_checkpoint_listing(v: AppView, found: Seq<CheckpointView>) -> AppView {
    AppView { checkpoints: found, checkpoint_scroll: 0, ..v }
}

/// Replaces the checkpoint list with a fresh listing.
pub fn refresh_checkpoints(app: &mut App, found: Vec<CheckpointInfo>)
    ensures
        final(app)@ == after_checkpoint_listing(old(app)@, checkpoint_views(found@)),
{
    app.checkpoints = found;
    app.checkpoint_scroll = 0;
}

/// The sum of the region sizes.
pub open spec fn regions_total(rs: Seq<RegionView>) -> nat
    decreases rs.len(),
{
    if rs.len() == 0 {
        0
    } else {
        regions_total(rs.drop_last()) + span_len(rs.last().start, rs.last().end) as nat
    }
}

/// The state after the memory map of a process was read: the listing, its regions, their total
/// size modulo 2^64, and the status `"Loaded <n> memory regions (<MiB> MB)"` with the total in
/// whole mebibytes; or, when reading failed, the error `"Failed to load memory: <error>"` and
/// no regions.
pub open spec fn after_memory_dump(v: AppView, dumped: Result<Seq<char>, Seq<char>>) -> AppView {
    match dumped {
        Ok(out) => {
            let rs = regions_of(lines_of(out));
            let total = (regions_total(rs) % 0x1_0000_0000_0000_0000) as u64;
            with_status(
                AppView { dump_output: out, memory_regions: rs, total_memory_size: total, ..v },
                "Loaded "@ + decimal(rs.len()) + " memory regions ("@ + decimal(
                    total as nat / (1024 * 1024),
                ) + " MB)"@,
            )
        },
        Err(e) => AppView {
            memory_regions: seq![],
            dump_output: seq![],
            total_memory_size: 0,
            ..with_error(v, "Failed to load memory: "@ + e)
        },
    }
}

/// The optional text as a `Result` of characters.
pub open spec fn result_view(r: Result<String, String>) -> Result<Seq<char>, Seq<char>> {
    match r {
        Ok(s) => Ok(s@),
        Err(e) => Err(e@),
    }
}

/// Takes in the memory map that the tool's `dump` printed for the selected process.
pub fn load_memory_regions(app: &mut App, dumped: Result<String, String>)
    ensures
        final(app)@ == after_memory_dump(old(app)@, result_view(dumped)),
{
    match dumped {
        Ok(output) => {
            let regions = parse_memory_regions(output.as_str());
            let mut total: u64 = 0;
            for i in 0..regions.len()
                invariant
                    total as nat == regions_total(region_views(regions@).take(i as int))
                        % 0x1_0000_0000_0000_0000,
            {
                proof {
                    let rv = region_views(regions@);
                    assert(rv.take(i as int + 1).drop_last() =~= rv.take(i as int));
                    assert(rv.take(i as int + 1).last() == regions@[i as int]@);
                }
                total = total.wrapping_add(regions[i].size());
            }
            proof {
                assert(region_views(regions@).take(regions@.len() as int) =~= region_views(
                    regions@,
                ));
            }
            let n = regions.len();
            app.dump_output = output;
            app.memory_regions = regions;
            app.total_memory_size = total;
            let mut m = String::from_str("Loaded ");
            m.append(decimal_string(n as u64).as_str());
            m.append(" memory regions (");
            m.append(decimal_string(total / (1024 * 1024)).as_str());
            m.append(" MB)");
            app.set_status(m);
        },
        Err(e) => {
            let mut m = String::from_str("Failed to load memory: ");
            m.append(e.as_str());
            app.set_error(m);
            app.memory_regions = Vec::new();
            app.dump_output = String::new();
            app.total_memory_size = 0;
            proof {
                assert(app@ =~= after_memory_dump(old(app)@, result_view(Err(e))));
            }
        },
    }
}

/// How much of a region a hex view reads: its size, at most 4096 bytes.
pub open spec fn hex_read_size(start: u64, end: u64) -> u64 {
    let s = span_len(start, end);
    if s < 4096 {
        s
    } else {
        4096
    }
}

/// The read a hex view of `start..end` needs: from the selected process, if there is one.
pub open spec fn hex_dump_request(v: AppView, start: u64, end: u64) -> Seq<CommandView> {
    match selected_proc(v) {
        Some(p) => seq![CommandView::ReadMemory { pid: p.pid, start: start, size: hex_read_size(start, end) }],
        None => seq![],
    }
}

/// The tool read that a hex view of `start..end` needs, if a process is selected.
pub fn load_hex_dump(app: &App, start: u64, end: u64) -> (r: Vec<Command>)
    ensures
        crate::ui::command::command_views(r@) == hex_dump_request(app@, start, end),
{
    let mut r: Vec<Command> = Vec::new();
    match app.selected_process() {
        Some(p) => {
            let span = end.wrapping_sub(start);
            let size = if span < 4096 {
                span
            } else {
                4096
            };
            r.push(Command::ReadMemory { pid: p.pid, start, size });
        },
        None => {},
    }
    proof {
        assert(crate::ui::command::command_views(r@) =~= hex_dump_request(app@, start, end));
    }
    r
}

/// The state after memory was read for a hex view: the dump shown, with the status
/// `"Hex dump: 0x<start> - <size> bytes"`; or the error `"Failed to read memory: <error>"` and
/// the hex view closed.
pub open spec fn after_memory_read(v: AppView, start: u64, size: u64, read: Result<Seq<char>, Seq<char>>) -> AppView {
    match read {
        Ok(data) => with_status(
            AppView { hex_data: dump_text(lines_of(data)), show_hex_view: true, ..v },
            "Hex dump: 0x"@ + hex(start as nat) + " - "@ + decimal(size as nat) + " bytes"@,
        ),
        Err(e) => AppView { show_hex_view: false, ..with_error(v, "Failed to read memory: "@ + e) },
    }
}

/// Shows the memory that the tool read for a hex view.
pub fn hex_dump_loaded(app: &mut App, start: u64, size: u64, read: Result<String, String>)
    ensures
        final(app)@ == after_memory_read(old(app)@, start, size, result_view(read)),
{
    match read {
        Ok(data) => {
            app.hex_data = format_hex_dump(start, data.as_str());
            app.show_hex_view = true;
            let mut m = String::from_str("Hex dump: 0x");
            let h = radix_string(start, 16);
            push_chars(&mut m, &h);
            m.append(" - ");
            m.append(decimal_string(size).as_str());
            m.append(" bytes");
            app.set_status(m);
        },
        Err(e) => {
            let mut m = String::from_str("Failed to read memory: ");
            m.append(e.as_str());
            app.set_error(m);
            app.show_hex_view = false;
        },
    }
}

/// The state after the tool described a process: its output, or
/// `"Failed to get process info: <error>"`, in the details panel.
pub open spec fn after_process_shown(v: AppView, shown: Result<Seq<char>, Seq<char>>) -> AppView {
    match shown {
        Ok(o) => AppView { process_info: o, ..v },
        Err(e) => AppView { process_info: "Failed to get process info: "@ + e, ..v },
    }
}

/// Puts the tool's description of the selected process in the details panel.
pub fn load_process_info(app: &mut App, shown: Result<String, String>)
    ensures
        final(app)@ == after_process_shown(old(app)@, result_view(shown)),
{
    match shown {
        Ok(o) => {
            app.process_info = o;
        },
        Err(e) => {
            let mut m = String::from_str("Failed to get process info: ");
            m.append(e.as_str());
            app.process_info = m;
        },
    }
}

/// The state after a symbol was resolved: the answer in the memory panel and the status
/// `"Resolved <symbol> to: "`; or the error `"Resolve failed: <error>"`.
pub open spec fn after_resolve(v: AppView, symbol: Seq<char>, r: Result<Seq<char>, Seq<char>>) -> AppView {
    match r {
        Ok(o) => with_status(AppView { dump_output: o, ..v }, "Resolved "@ + symbol + " to: "@),
        Err(e) => with_error(v, "Resolve failed: "@ + e),
    }
}

/// Shows the outcome of resolving `symbol`.
pub fn resolve_finished(app: &mut App, symbol: &String, r: Result<String, String>)
    ensures
        final(app)@ == after_resolve(old(app)@, symbol@, result_view(r)),
{
    match r {
        Ok(o) => {
            app.dump_output = o;
            let mut m = String::from_str("Resolved ");
            m.append(symbol.as_str());
            m.append(" to: ");
            app.set_status(m);
        },
        Err(e) => {
            let mut m = String::from_str("Resolve failed: ");
            m.append(e.as_str());
            app.set_error(m);
        },
    }
}

/// The state after a tool run for process `pid`: on success the status `ok` followed by the
/// process id, on failure the error `fail` followed by the error text.
pub open spec fn after_run(v: AppView, ok: Seq<char>, pid: u32, fail: Seq<char>, r: Result<Seq<char>, Seq<char>>) -> AppView {
    match r {
        Ok(_) => with_status(v, ok + decimal(pid as nat)),
        Err(e) => with_error(v, fail + e),
    }
}

fn report_run(app: &mut App, ok: &str, pid: u32, fail: &str, r: Result<String, String>)
    ensures
        final(app)@ == after_run(old(app)@, ok@, pid, fail@, result_view(r)),
{
    match r {
        Ok(_) => {
            let mut m = String::from_str(ok);
            m.append(decimal_string(pid as u64).as_str());
            app.set_status(m);
        },
        Err(e) => {
            let mut m = String::from_str(fail);
            m.append(e.as_str());
            app.set_error(m);
        },
    }
}

/// Shows the outcome of restoring a checkpoint into process `pid`.
pub fn restore_finished(app: &mut App, pid: u32, r: Result<String, String>)
    ensures
        final(app)@ == after_run(old(app)@, "Restored checkpoint to PID "@, pid, "Restore failed: "@, result_view(r)),
{
    report_run(app, "Restored checkpoint to PID ", pid, "Restore failed: ", r);
}

/// Shows the outcome of a parasite restore into process `pid`.
pub fn parasite_finished(app: &mut App, pid: u32, r: Result<String, String>)
    ensures
        final(app)@ == after_run(old(app)@, "Parasite restore done for PID "@, pid, "Parasite failed: "@, result_view(r)),
{
    report_run(app, "Parasite restore done for PID ", pid, "Parasite failed: ", r);
}

/// Shows the outcome of injecting shellcode into process `pid`.
pub fn inject_finished(app: &mut App, pid: u32, r: Result<String, String>)
    ensures
        final(app)@ == after_run(old(app)@, "Shellcode injected to PID "@, pid, "Inject failed: "@, result_view(r)),
{
    report_run(app, "Shellcode injected to PID ", pid, "Inject failed: ", r);
}

/// The state after a checkpoint directory was deleted (`Ok`) or not: the status
/// `"Checkpoint deleted"` and a fresh checkpoint listing to follow, or the error
/// `"Delete failed: <error>"`.
pub open spec fn after_delete(v: AppView, r: Result<(), Seq<char>>) -> (AppView, Seq<CommandView>) {
    match r {
        Ok(_) => (with_status(v, "Checkpoint deleted"@), seq![CommandView::RefreshCheckpoints]),
        Err(e) => (with_error(v, "Delete failed: "@ + e), seq![]),
    }
}

/// Shows the outcome of deleting a checkpoint; on success the checkpoint list is to be
/// listed afresh.
pub fn delete_finished(app: &mut App, r: Result<(), String>) -> (cmds: Vec<Command>)
    ensures
        (final(app)@, crate::ui::command::command_views(cmds@)) == after_delete(
            old(app)@,
            match r {
                Ok(_) => Ok(()),
                Err(e) => Err(e@),
            },
        ),
{
    let mut cmds: Vec<Command> = Vec::new();
    match r {
        Ok(_) => {
            app.set_status(String::from_str("Checkpoint deleted"));
            cmds.push(Command::RefreshCheckpoints);
        },
        Err(e) => {
            let mut m = String::from_str("Delete failed: ");
            m.append(e.as_str());
            app.set_error(m);
        },
    }
    proof {
        assert(crate::ui::command::command_views(cmds@) =~= after_delete(
            old(app)@,
            match r {
                Ok(_) => Ok(()),
                Err(e) => Err(e@),
            },
        ).1);
    }
    cmds
}

/// `dir` joined with the relative name `name`, as `Path::join` joins them: a `'/'` between
/// them unless `dir` is empty or already ends in one.
pub open spec fn join_path(dir: Seq<char>, name: Seq<char>) -> Seq<char> {
    if dir.len() == 0 || dir.last() == '/' {
        dir + name
    } else {
        dir + seq!['/'] + name
    }
}

/// The directory a new checkpoint of process `pid` taken at `now` goes to:
/// `ckpt_<pid>_<now>` inside the checkpoint directory.
pub open spec fn checkpoint_path(dir: Seq<char>, pid: u32, now: u64) -> Seq<char> {
    join_path(dir, "ckpt_"@ + decimal(pid as nat) + seq!['_'] + decimal(now as nat))
}

/// Starts a checkpoint of process `pid` at time `now` (seconds since the epoch): shows
/// `"Creating checkpoint for PID <pid>..."` and names the directory to save into.
pub fn create_checkpoint(app: &mut App, pid: u32, now: u64) -> (path: String)
    ensures
        path@ == checkpoint_path(old(app)@.checkpoint_dir, pid, now),
        final(app)@ == with_status(old(app)@, "Creating checkpoint for PID "@ + decimal(pid as nat) + "..."@),
{
    let mut name = String::from_str("ckpt_");
    name.append(decimal_string(pid as u64).as_str());
    name.push('_');
    name.append(decimal_string(now).as_str());
    let dir = chars_of(app.checkpoint_dir.as_str());
    let mut path = app.checkpoint_dir.clone();
    if dir.len() > 0 && dir[dir.len() - 1] != '/' {
        path.push('/');
    }
    path.append(name.as_str());
    proof {
        assert(path@ =~= checkpoint_path(old(app)@.checkpoint_dir, pid, now));
    }
    let mut m = String::from_str("Creating checkpoint for PID ");
    m.append(decimal_string(pid as u64).as_str());
    m.append("...");
    app.set_status(m);
    path
}

/// The state after saving a checkpoint of process `pid` with command line `name` into `path`:
/// the status `"Checkpoint saved to <path>"` (the path as `{:?}` prints it), then the file
/// `meta.json` in that directory written with the JSON of the process id and command, and a
/// fresh checkpoint listing; or the error `"Checkpoint failed: <error>"`.
pub open spec fn after_save(
    v: AppView,
    path: Seq<char>,
    pid: u32,
    name: Seq<char>,
    r: Result<(), Seq<char>>,
) -> (AppView, Seq<CommandView>) {
    match r {
        Ok(_) => (
            with_status(v, "Checkpoint saved to "@ + path_debug_text(path)),
            seq![
                CommandView::WriteMeta {
                    path: join_path(path, "meta.json"@),
                    text: meta_json_text(pid, name),
                },
                CommandView::RefreshCheckpoints,
            ],
        ),
        Err(e) => (with_error(v, "Checkpoint failed: "@ + e), seq![]),
    }
}

/// Shows the outcome of saving a checkpoint of process `pid` with command line `name` into
/// `path`; on success its metadata file is to be written and the checkpoints listed afresh.
pub fn checkpoint_saved(app: &mut App, path: &String, pid: u32, name: &String, r: Result<(), String>) -> (cmds: Vec<Command>)
    ensures
        (final(app)@, crate::ui::command::command_views(cmds@)) == after_save(
            old(app)@,
            path@,
            pid,
            name@,
            match r {
                Ok(_) => Ok(()),
                Err(e) => Err(e@),
            },
        ),
{
    let mut cmds: Vec<Command> = Vec::new();
    match r {
        Ok(_) => {
            let mut m = String::from_str("Checkpoint saved to ");
            m.append(path_debug(path.as_str()).as_str());
            app.set_status(m);
            let dir = chars_of(path.as_str());
            let mut meta_path = path.clone();
            if dir.len() > 0 && dir[dir.len() - 1] != '/' {
                meta_path.push('/');
            }
            meta_path.append("meta.json");
            proof {
                reveal_strlit("meta.json");
                assert(meta_path@ =~= join_path(path@, "meta.json"@));
            }
            cmds.push(Command::WriteMeta { path: meta_path, text: meta_json(pid, name.as_str()) });
            cmds.push(Command::RefreshCheckpoints);
        },
        Err(e) => {
            let mut m = String::from_str("Checkpoint failed: ");
            m.append(e.as_str());
            app.set_error(m);
        },
    }
    proof {
        assert(crate::ui::command::command_views(cmds@) =~= after_save(
            old(app)@,
            path@,
            pid,
            name@,
            match r {
                Ok(_) => Ok(()),
                Err(e) => Err(e@),
            },
        ).1);
    }
    cmds
}

proof fn lemma_decimal_digits(n: nat)
    ensures
        forall|i: int| 0 <= i < decimal(n).len() ==> #[trigger] decimal(n)[i] != '_',
    decreases n,
{
    let d = n % 10;
    assert(digit_char(d) != '_') by {
        assert(d < 10);
        assert(digit_char(d) == ('0' as int + d) as char);
    }
    if n >= 10 {
        lemma_decimal_digits(n / 10);
        assert(decimal(n) == decimal(n / 10).push(digit_char(d)));
        assert forall|i: int| 0 <= i < decimal(n).len() implies #[trigger] decimal(n)[i] != '_' by {
            if i < decimal(n / 10).len() {
                assert(decimal(n)[i] == decimal(n / 10)[i]);
            }
        }
    } else {
        assert(decimal(n) == seq![digit_char(n)]);
    }
}

proof fn lemma_split_at_underscore(a1: Seq<char>, b1: Seq<char>, a2: Seq<char>, b2: Seq<char>)
    requires
        forall|i: int| 0 <= i < a1.len() ==> #[trigger] a1[i] != '_',
        forall|i: int| 0 <= i < a2.len() ==> #[trigger] a2[i] != '_',
        a1 + seq!['_'] + b1 == a2 + seq!['_'] + b2,
    ensures
        a1 == a2,
        b1 == b2,
{
    let l = a1 + seq!['_'] + b1;
    let r = a2 + seq!['_'] + b2;
    if a1.len() < a2.len() {
        assert(l[a1.len() as int] == '_');
        assert(r[a1.len() as int] == a2[a1.len() as int]);
    } else if a2.len() < a1.len() {
        assert(r[a2.len() as int] == '_');
        assert(l[a2.len() as int] == a1[a2.len() as int]);
    } else {
        assert forall|i: int| 0 <= i < a1.len() implies a1[i] == a2[i] by {
            assert(l[i] == a1[i]);
            assert(r[i] == a2[i]);
            assert(l[i] == r[i]);
        }
        assert(a1 =~= a2);
        assert(b1 =~= l.skip(a1.len() as int + 1));
        assert(b2 =~= r.skip(a2.len() as int + 1));
    }
}

/// Checkpoints of different processes, or taken in different seconds, go to different
/// directories: a new checkpoint never lands in another one's directory.
pub proof fn checkpoint_path_law(dir: Seq<char>, p1: u32, t1: u64, p2: u32, t2: u64)
    ensures
        checkpoint_path(dir, p1, t1) == checkpoint_path(dir, p2, t2) ==> p1 == p2 && t1 == t2,
{
    if checkpoint_path(dir, p1, t1) == checkpoint_path(dir, p2, t2) {
        let head = if dir.len() == 0 || dir.last() == '/' {
            dir
        } else {
            dir + seq!['/']
        };
        let n1 = "ckpt_"@ + decimal(p1 as nat) + seq!['_'] + decimal(t1 as nat);
        let n2 = "ckpt_"@ + decimal(p2 as nat) + seq!['_'] + decimal(t2 as nat);
        assert(checkpoint_path(dir, p1, t1) =~= head + n1);
        assert(checkpoint_path(dir, p2, t2) =~= head + n2);
        assert(n1 =~= (head + n1).skip(head.len() as int));
        assert(n2 =~= (head + n2).skip(head.len() as int));
        reveal_strlit("ckpt_");
        let r1 = decimal(p1 as nat) + seq!['_'] + decimal(t1 as nat);
        let r2 = decimal(p2 as nat) + seq!['_'] + decimal(t2 as nat);
        assert(r1 =~= n1.skip(5));
        assert(r2 =~= n2.skip(5));
        lemma_decimal_digits(p1 as nat);
        lemma_decimal_digits(p2 as nat);
        lemma_split_at_underscore(decimal(p1 as nat), decimal(t1 as nat), decimal(p2 as nat), decimal(t2 as nat));
        radix_round_trip(p1 as nat, 10, u64::MAX as nat);
        radix_round_trip(p2 as nat, 10, u64::MAX as nat);
        radix_round_trip(t1 as nat, 10, u64::MAX as nat);
        radix_round_trip(t2 as nat, 10, u64::MAX as nat);
    }
}

} // verus!
