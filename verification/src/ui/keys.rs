//! How the interface answers a key: the next state, and the work to be done for it.
use vstd::prelude::*;
use crate::foreign::{path_debug, path_debug_text};
use crate::text::{file_name, file_name_of};
use crate::models::checkpoint::CheckpointView;
use crate::models::memory::{gib, size_text, span_len, MemoryRegion, RegionView};
use crate::models::process::{ProcessInfo, ProcessView};
use crate::num::{decimal, f64_of, f64_value, hex, one_decimal, one_decimal_chars, radix_string};
use crate::text::{chars_of, lines_of, push_chars, split_lines, string_from, trim, trim_of};
use crate::ui::app::{
    selected_ckpt, selected_proc, selected_region, sorted_state, switched_to, tab_after,
    tab_before, with_saved_search, with_status, without_status, App, AppView, Focus, SortBy, Tab,
};
use crate::ui::command::{command_views, Command, CommandView, Key};
use crate::ui::effects::{hex_dump_request, load_hex_dump};
use crate::ui::search::{apply_search_filter, search_request};
use crate::wrapper::runner::decimal_string;

verus! {

/// The answer to a key: the next state and the work to do, in order.
pub open spec fn answer(v: AppView, cmds: Seq<CommandView>) -> (AppView, Seq<CommandView>) {
    (v, cmds)
}

/// The prompt of a search on tab `t`.
pub open spec fn search_prompt(t: Tab) -> Seq<char> {
    match t {
        Tab::Processes => "Search: "@,
        Tab::Memory => "Filter memory: "@,
        Tab::Checkpoints => "Filter checkpoints: "@,
    }
}

/// The prompt while a symbol to resolve is typed.
pub open spec fn extended_prompt() -> Seq<char> {
    "Extended command (resolve <symbol>): "@
}

/// A focus's name as `{:?}` prints it.
pub open spec fn focus_name(f: Focus) -> Seq<char> {
    match f {
        Focus::List => "List"@,
        Focus::Output => "Output"@,
    }
}

/// The other focus.
pub open spec fn other_focus(f: Focus) -> Focus {
    match f {
        Focus::List => Focus::Output,
        Focus::Output => Focus::List,
    }
}

/// `a - b`, or 0 when `b` is larger.
pub open spec fn sat_sub(a: int, b: int) -> int {
    if a > b {
        a - b
    } else {
        0
    }
}

/// The smaller of two numbers.
pub open spec fn min_of(a: int, b: int) -> int {
    if a < b {
        a
    } else {
        b
    }
}

/// How many panel lines a text fills.
pub open spec fn line_count(s: Seq<char>) -> int {
    lines_of(s).len() as int
}

/// The last scroll position of a text panel showing twenty lines at a time.
pub open spec fn scroll_limit(s: Seq<char>) -> int {
    sat_sub(line_count(s), 20)
}

/// The text without its last character, if it has one.
pub open spec fn popped(s: Seq<char>) -> Seq<char> {
    if s.len() > 0 {
        s.drop_last()
    } else {
        s
    }
}

/// A typed character added to the search: the prompt and search text shown, and the work the
/// search needs.
pub open spec fn typed_search(v: AppView, c: char) -> (AppView, Seq<CommandView>) {
    let v1 = AppView { search_query: v.search_query.push(c), ..v };
    let v2 = with_status(v1, search_prompt(v.tab) + v1.search_query);
    answer(v2, search_request(v2))
}

/// A typed character added to the hex search, shown as `"Hex search: <text>"`.
pub open spec fn typed_hex_search(v: AppView, c: char) -> (AppView, Seq<CommandView>) {
    let v1 = AppView { hex_search: v.hex_search.push(c), ..v };
    answer(with_status(v1, "Hex search: "@ + v1.hex_search), seq![])
}

/// The space key: typed into a search or hex search, else it moves the focus to the other
/// panel and says so.
pub open spec fn space_key(v: AppView) -> (AppView, Seq<CommandView>) {
    if v.is_searching {
        typed_search(v, ' ')
    } else if v.is_hex_searching {
        typed_hex_search(v, ' ')
    } else {
        let f = other_focus(v.focus);
        answer(with_status(AppView { focus: f, ..v }, "Focus: "@ + focus_name(f)), seq![])
    }
}

/// Answering no to the checkpoint question: the question closed, `"Checkpoint cancelled"`.
pub open spec fn cancel_confirm(v: AppView) -> (AppView, Seq<CommandView>) {
    let v1 = AppView { show_confirm: false, confirm_message: seq![], pending_hex_load: None, ..v };
    answer(with_status(v1, "Checkpoint cancelled"@), seq![])
}

/// Leaving a search: the search ended and forgotten, then the tab's list reloaded in full
/// (the memory tab from the top, for the selected process if there is one) and the status
/// cleared.
pub open spec fn leave_search(v: AppView) -> (AppView, Seq<CommandView>) {
    let v1 = AppView { saved_search: None, is_searching: false, search_query: seq![], ..v };
    match v.tab {
        Tab::Processes => answer(v1, seq![CommandView::RefreshProcesses, CommandView::ClearStatus]),
        Tab::Memory => {
            let v2 = AppView { memory_scroll: 0, ..v1 };
            match selected_proc(v2) {
                Some(p) => answer(
                    v2,
                    seq![CommandView::LoadMemoryRegions { pid: p.pid }, CommandView::ClearStatus],
                ),
                None => answer(without_status(v2), seq![]),
            }
        },
        Tab::Checkpoints => answer(
            AppView { checkpoint_scroll: 0, ..v1 },
            seq![CommandView::RefreshCheckpoints, CommandView::ClearStatus],
        ),
    }
}

/// The escape key: it ends, in this order of precedence, symbol entry, a search, a hex search,
/// or the hex view.
pub open spec fn esc_key(v: AppView) -> (AppView, Seq<CommandView>) {
    if v.extended_mode {
        answer(
            without_status(AppView { extended_mode: false, extended_command: seq![], ..v }),
            seq![],
        )
    } else if v.is_searching {
        leave_search(v)
    } else if v.is_hex_searching {
        answer(
            without_status(AppView { is_hex_searching: false, hex_search: seq![], ..v }),
            seq![],
        )
    } else if v.show_hex_view {
        answer(AppView { show_hex_view: false, hex_data: seq![], ..v }, seq![])
    } else {
        answer(v, seq![])
    }
}

/// A kept search applied: the work it needs, then the status cleared.
pub open spec fn kept_search(v: AppView) -> (AppView, Seq<CommandView>) {
    let cmds = search_request(v);
    if cmds.len() == 0 {
        answer(without_status(v), seq![])
    } else {
        answer(v, cmds.push(CommandView::ClearStatus))
    }
}

/// Enter during a search: the search ends; a non-empty one is kept and applied; then the
/// status is cleared.
pub open spec fn enter_search(v: AppView) -> (AppView, Seq<CommandView>) {
    let v1 = AppView { is_searching: false, ..v };
    if v.search_query.len() == 0 {
        answer(without_status(v1), seq![])
    } else {
        kept_search(with_saved_search(v1, Some(v.search_query)))
    }
}

/// Enter during symbol entry: the trimmed symbol, if any, is resolved in the selected process
/// (if any); symbol entry ends.
pub open spec fn enter_extended(v: AppView) -> (AppView, Seq<CommandView>) {
    let v1 = AppView { extended_mode: false, extended_command: seq![], ..v };
    let sym = trim_of(v.extended_command);
    match selected_proc(v) {
        Some(p) => if sym.len() > 0 {
            answer(v1, seq![CommandView::Resolve { pid: p.pid, symbol: sym }])
        } else {
            answer(v1, seq![])
        },
        None => answer(v1, seq![]),
    }
}

/// A typed character added to the symbol, shown after the prompt.
pub open spec fn typed_extended(v: AppView, c: char) -> (AppView, Seq<CommandView>) {
    let v1 = AppView { extended_command: v.extended_command.push(c), ..v };
    answer(with_status(v1, extended_prompt() + v1.extended_command), seq![])
}

/// Backspace during symbol entry: the last character removed, the prompt and symbol shown.
pub open spec fn backspace_extended(v: AppView) -> (AppView, Seq<CommandView>) {
    let v1 = AppView { extended_command: popped(v.extended_command), ..v };
    answer(with_status(v1, extended_prompt() + v1.extended_command), seq![])
}

/// Backspace during a search: on an empty search it leaves the search; else the last
/// character is removed, the prompt and search shown, and the search applied.
pub open spec fn backspace_search(v: AppView) -> (AppView, Seq<CommandView>) {
    if v.search_query.len() == 0 {
        leave_search(v)
    } else {
        let v1 = AppView { search_query: v.search_query.drop_last(), ..v };
        let v2 = with_status(v1, search_prompt(v.tab) + v1.search_query);
        answer(v2, search_request(v2))
    }
}

/// Backspace during a hex search: the last character removed and the hex search shown.
pub open spec fn backspace_hex(v: AppView) -> (AppView, Seq<CommandView>) {
    let v1 = AppView { hex_search: popped(v.hex_search), ..v };
    answer(with_status(v1, "Hex search: "@ + v1.hex_search), seq![])
}

/// The refresh key: the search ends, `"Refreshing..."`, both lists reloaded, status cleared.
pub open spec fn refresh_key(v: AppView) -> (AppView, Seq<CommandView>) {
    let v1 = with_status(AppView { is_searching: false, search_query: seq![], ..v }, "Refreshing..."@);
    answer(
        v1,
        seq![CommandView::RefreshProcesses, CommandView::RefreshCheckpoints, CommandView::ClearStatus],
    )
}

/// The slash key: a hex search starts when the hex view has the focus; otherwise a search
/// starts (keeping a search that was under way) with the tab's prompt.
pub open spec fn slash_key(v: AppView) -> (AppView, Seq<CommandView>) {
    if v.show_hex_view && v.focus == Focus::Output {
        answer(
            with_status(AppView { is_hex_searching: true, hex_search: seq![], ..v }, "Hex search: "@),
            seq![],
        )
    } else {
        let v1 = if v.is_searching {
            with_saved_search(v, Some(v.search_query))
        } else {
            v
        };
        answer(
            with_status(AppView { is_searching: true, search_query: seq![], ..v1 }, search_prompt(v.tab)),
            seq![],
        )
    }
}

/// A sort key: ordering by `by`, the direction flipped, the list sorted, and
/// `"Sorted by <label> (asc)"` or `"(desc)"`.
pub open spec fn sort_key(v: AppView, by: SortBy, label: Seq<char>) -> (AppView, Seq<CommandView>) {
    let v1 = sorted_state(AppView { sort_by: by, sort_ascending: !v.sort_ascending, ..v });
    let dir = if v1.sort_ascending {
        " (asc)"@
    } else {
        " (desc)"@
    };
    answer(with_status(v1, "Sorted by "@ + label + dir), seq![])
}

/// The question asked before checkpointing more than a gibibyte of memory.
pub open spec fn confirm_text(total: u64) -> Seq<char> {
    "Total memory is "@ + one_decimal(f64_of(total as nat), gib()) + " GB. Create checkpoint? [y/n]"@
}

/// The checkpoint key: for the selected process, a checkpoint is made at once, or, when the
/// loaded memory exceeds a gibibyte, a yes/no question is asked first.
pub open spec fn checkpoint_key(v: AppView) -> (AppView, Seq<CommandView>) {
    match selected_proc(v) {
        None => answer(v, seq![]),
        Some(p) => if v.total_memory_size > gib() {
            let msg = confirm_text(v.total_memory_size);
            answer(
                with_status(
                    AppView {
                        pending_hex_load: Some((p.pid as u64, 0)),
                        show_confirm: true,
                        confirm_message: msg,
                        ..v
                    },
                    msg,
                ),
                seq![],
            )
        } else {
            answer(v, seq![CommandView::CreateCheckpoint { pid: p.pid, name: p.name }])
        },
    }
}

/// The first process in the list whose id is `pid`.
pub open spec fn find_pid(ps: Seq<ProcessView>, pid: u64) -> Option<ProcessView>
    decreases ps.len(),
{
    if ps.len() == 0 {
        None
    } else if ps[0].pid as u64 == pid {
        Some(ps[0])
    } else {
        find_pid(ps.drop_first(), pid)
    }
}

/// Answering yes to the checkpoint question: the process it was asked for, if still listed, is
/// checkpointed; the question closes.
pub open spec fn confirm_yes(v: AppView) -> (AppView, Seq<CommandView>) {
    let v1 = AppView { show_confirm: false, confirm_message: seq![], pending_hex_load: None, ..v };
    let cmds = match v.pending_hex_load {
        Some((pid, z)) => if z == 0 {
            match find_pid(v.processes, pid) {
                Some(p) => seq![CommandView::CreateCheckpoint { pid: p.pid, name: p.name }],
                None => seq![],
            }
        } else {
            seq![]
        },
        None => seq![],
    };
    answer(v1, cmds)
}

/// The restore key on the checkpoint tab: the selected checkpoint, if it records a process,
/// is restored into it.
pub open spec fn restore_key(v: AppView) -> (AppView, Seq<CommandView>) {
    if v.tab != Tab::Checkpoints {
        answer(v, seq![])
    } else {
        match selected_ckpt(v) {
            Some(c) => if c.pid > 0 {
                answer(
                    with_status(v, "Restoring checkpoint to PID "@ + decimal(c.pid as nat) + "..."@),
                    seq![CommandView::Restore { pid: c.pid, path: c.path }],
                )
            } else {
                answer(v, seq![])
            },
            None => answer(v, seq![]),
        }
    }
}

/// The delete key on the checkpoint tab: the selected checkpoint's directory is deleted.
pub open spec fn delete_key(v: AppView) -> (AppView, Seq<CommandView>) {
    if v.tab != Tab::Checkpoints {
        answer(v, seq![])
    } else {
        match selected_ckpt(v) {
            Some(c) => answer(
                with_status(v, "Deleting checkpoint "@ + path_debug_text(c.path) + "..."@),
                seq![CommandView::DeleteCheckpoint { path: c.path }],
            ),
            None => answer(v, seq![]),
        }
    }
}

/// The parasite key on the checkpoint tab: the selected checkpoint, if it records a process,
/// is restored into it from inside.
pub open spec fn parasite_key(v: AppView) -> (AppView, Seq<CommandView>) {
    if v.tab != Tab::Checkpoints {
        answer(v, seq![])
    } else {
        match selected_ckpt(v) {
            Some(c) => if c.pid > 0 {
                answer(
                    with_status(v, "Parasite restore to PID "@ + decimal(c.pid as nat)),
                    seq![CommandView::Parasite { pid: c.pid, path: c.path }],
                )
            } else {
                answer(v, seq![])
            },
            None => answer(v, seq![]),
        }
    }
}

/// The inject key on the process tab: shellcode is injected into the selected process.
pub open spec fn inject_key(v: AppView) -> (AppView, Seq<CommandView>) {
    if v.tab != Tab::Processes {
        answer(v, seq![])
    } else {
        match selected_proc(v) {
            Some(p) => answer(
                with_status(v, "Injecting shellcode to PID "@ + decimal(p.pid as nat)),
                seq![CommandView::InjectShellcode { pid: p.pid }],
            ),
            None => answer(v, seq![]),
        }
    }
}

/// The key that starts symbol entry.
pub open spec fn extended_key(v: AppView) -> (AppView, Seq<CommandView>) {
    answer(with_status(AppView { extended_mode: true, ..v }, extended_prompt()), seq![])
}

/// The view key on the memory tab: the selected region is shown in hex.
pub open spec fn view_key(v: AppView) -> (AppView, Seq<CommandView>) {
    if v.tab != Tab::Memory {
        answer(v, seq![])
    } else {
        match selected_region(v) {
            Some(r) => answer(v, hex_dump_request(v, r.start, r.end)),
            None => answer(v, seq![]),
        }
    }
}

/// Which scrollable part a navigation key moves.
pub enum Pane {
    Hex,
    Dump,
    Info,
    CheckpointInfo,
    List,
}

/// The part that navigation keys move: with the focus on the output panel, the hex view when it
/// is open, else the memory listing, the process details (when there are any) or nothing on the
/// checkpoint tab (when a checkpoint is selected); otherwise the tab's list.
pub open spec fn pane_of(v: AppView) -> Pane {
    if v.show_hex_view && v.focus == Focus::Output {
        Pane::Hex
    } else if !v.show_hex_view && v.focus == Focus::Output && v.tab == Tab::Memory {
        Pane::Dump
    } else if !v.show_hex_view && v.focus == Focus::Output && v.tab == Tab::Processes
        && v.process_info.len() > 0 {
        Pane::Info
    } else if !v.show_hex_view && v.focus == Focus::Output && v.tab == Tab::Checkpoints
        && selected_ckpt(v) is Some {
        Pane::CheckpointInfo
    } else {
        Pane::List
    }
}

/// The path shown for a region: its path, or `"[anon]"`.
pub open spec fn region_label(r: RegionView) -> Seq<char> {
    match r.path {
        Some(p) => p,
        None => "[anon]"@,
    }
}

/// Moving onto a process: `"Selected: <name> - PID <pid>"` and its details loaded, for a
/// process whose id is not 0.
pub open spec fn on_process(v: AppView) -> (AppView, Seq<CommandView>) {
    match selected_proc(v) {
        Some(p) => if p.pid > 0 {
            answer(
                with_status(v, "Selected: "@ + p.name + " - PID "@ + decimal(p.pid as nat)),
                seq![CommandView::LoadProcessInfo { pid: p.pid }],
            )
        } else {
            answer(v, seq![])
        },
        None => answer(v, seq![]),
    }
}

/// Moving onto a region: `"Selected: 0x<start> - <size> - <path>"` and its hex view loaded,
/// when the shown path is not empty.
pub open spec fn on_region(v: AppView) -> (AppView, Seq<CommandView>) {
    match selected_region(v) {
        Some(r) => {
            let label = region_label(r);
            if label.len() > 0 {
                let v1 = with_status(
                    v,
                    "Selected: 0x"@ + hex(r.start as nat) + " - "@ + size_text(span_len(r.start, r.end))
                        + " - "@ + label,
                );
                answer(v1, hex_dump_request(v1, r.start, r.end))
            } else {
                answer(v, seq![])
            }
        },
        None => answer(v, seq![]),
    }
}

/// The name shown for a checkpoint: its directory's file name, or empty.
pub open spec fn checkpoint_label(c: CheckpointView) -> Seq<char> {
    match file_name_of(c.path) {
        Some(n) => n,
        None => seq![],
    }
}

/// Moving onto a checkpoint: `"Selected checkpoint: "` and its name as `{:?}` prints it.
pub open spec fn on_checkpoint(v: AppView) -> (AppView, Seq<CommandView>) {
    match selected_ckpt(v) {
        Some(c) => answer(
            with_status(v, "Selected checkpoint: "@ + path_debug_text(checkpoint_label(c))),
            seq![],
        ),
        None => answer(v, seq![]),
    }
}

/// After a page, home or end move on the process list: the details of the process now
/// selected are loaded.
pub open spec fn load_selected_process(v: AppView) -> (AppView, Seq<CommandView>) {
    match selected_proc(v) {
        Some(p) => answer(v, seq![CommandView::LoadProcessInfo { pid: p.pid }]),
        None => answer(v, seq![]),
    }
}

/// After a page, home or end move on the memory list: the region now selected is shown in hex.
pub open spec fn load_selected_region(v: AppView) -> (AppView, Seq<CommandView>) {
    match selected_region(v) {
        Some(r) => answer(v, hex_dump_request(v, r.start, r.end)),
        None => answer(v, seq![]),
    }
}

/// The last index of a list of `n` items (0 when empty).
pub open spec fn last_index(n: nat) -> int {
    sat_sub(n as int, 1)
}

/// The down key.
pub open spec fn down_key(v: AppView) -> (AppView, Seq<CommandView>) {
    match pane_of(v) {
        Pane::Hex => answer(
            AppView { hex_scroll: min_of(v.hex_scroll + 1, scroll_limit(v.hex_data)) as usize, ..v },
            seq![],
        ),
        Pane::Dump => answer(
            AppView {
                output_scroll: min_of(v.output_scroll + 1, scroll_limit(v.dump_output)) as usize,
                ..v
            },
            seq![],
        ),
        Pane::Info => answer(
            AppView {
                process_info_scroll: min_of(v.process_info_scroll + 1, scroll_limit(v.process_info))
                    as usize,
                ..v
            },
            seq![],
        ),
        Pane::CheckpointInfo => answer(v, seq![]),
        Pane::List => match v.tab {
            Tab::Processes => if v.focus == Focus::List && v.process_scroll < last_index(
                v.processes.len(),
            ) {
                on_process(AppView { process_scroll: (v.process_scroll + 1) as usize, ..v })
            } else {
                answer(v, seq![])
            },
            Tab::Memory => if v.focus == Focus::List && v.memory_scroll < last_index(
                v.memory_regions.len(),
            ) {
                on_region(AppView { memory_scroll: (v.memory_scroll + 1) as usize, ..v })
            } else {
                answer(v, seq![])
            },
            Tab::Checkpoints => if v.focus == Focus::List && v.checkpoint_scroll < last_index(
                v.checkpoints.len(),
            ) {
                on_checkpoint(AppView { checkpoint_scroll: (v.checkpoint_scroll + 1) as usize, ..v })
            } else {
                answer(v, seq![])
            },
        },
    }
}

/// The up key.
pub open spec fn up_key(v: AppView) -> (AppView, Seq<CommandView>) {
    match pane_of(v) {
        Pane::Hex => answer(
            AppView { hex_scroll: sat_sub(v.hex_scroll as int, 1) as usize, ..v },
            seq![],
        ),
        Pane::Dump => answer(
            AppView { output_scroll: sat_sub(v.output_scroll as int, 1) as usize, ..v },
            seq![],
        ),
        Pane::Info => answer(
            AppView { process_info_scroll: sat_sub(v.process_info_scroll as int, 1) as usize, ..v },
            seq![],
        ),
        Pane::CheckpointInfo => answer(v, seq![]),
        Pane::List => match v.tab {
            Tab::Processes => if v.focus == Focus::List && v.process_scroll > 0 {
                on_process(AppView { process_scroll: (v.process_scroll - 1) as usize, ..v })
            } else {
                answer(v, seq![])
            },
            Tab::Memory => if v.focus == Focus::List && v.memory_scroll > 0 {
                on_region(AppView { memory_scroll: (v.memory_scroll - 1) as usize, ..v })
            } else {
                answer(v, seq![])
            },
            Tab::Checkpoints => if v.focus == Focus::List && v.checkpoint_scroll > 0 {
                on_checkpoint(AppView { checkpoint_scroll: (v.checkpoint_scroll - 1) as usize, ..v })
            } else {
                answer(v, seq![])
            },
        },
    }
}

/// A list position moved ten forward, but not past the last item (nor back).
pub open spec fn page_forward(pos: usize, n: nat) -> usize {
    (pos + min_of(10, sat_sub(last_index(n), pos as int))) as usize
}

/// The page-down key.
pub open spec fn page_down_key(v: AppView) -> (AppView, Seq<CommandView>) {
    match pane_of(v) {
        Pane::Hex => answer(
            AppView { hex_scroll: min_of(v.hex_scroll + 20, scroll_limit(v.hex_data)) as usize, ..v },
            seq![],
        ),
        Pane::Dump => answer(
            AppView {
                output_scroll: min_of(v.output_scroll + 20, scroll_limit(v.dump_output)) as usize,
                ..v
            },
            seq![],
        ),
        Pane::Info => answer(
            AppView {
                process_info_scroll: min_of(v.process_info_scroll + 20, scroll_limit(v.process_info))
                    as usize,
                ..v
            },
            seq![],
        ),
        Pane::CheckpointInfo => answer(v, seq![]),
        Pane::List => match v.tab {
            Tab::Processes => load_selected_process(
                AppView { process_scroll: page_forward(v.process_scroll, v.processes.len()), ..v },
            ),
            Tab::Memory => load_selected_region(
                AppView { memory_scroll: page_forward(v.memory_scroll, v.memory_regions.len()), ..v },
            ),
            Tab::Checkpoints => answer(
                AppView {
                    checkpoint_scroll: page_forward(v.checkpoint_scroll, v.checkpoints.len()),
                    ..v
                },
                seq![],
            ),
        },
    }
}

/// The page-up key.
pub open spec fn page_up_key(v: AppView) -> (AppView, Seq<CommandView>) {
    match pane_of(v) {
        Pane::Hex => answer(
            AppView { hex_scroll: sat_sub(v.hex_scroll as int, 20) as usize, ..v },
            seq![],
        ),
        Pane::Dump => answer(
            AppView { output_scroll: sat_sub(v.output_scroll as int, 20) as usize, ..v },
            seq![],
        ),
        Pane::Info => answer(
            AppView { process_info_scroll: sat_sub(v.process_info_scroll as int, 20) as usize, ..v },
            seq![],
        ),
        Pane::CheckpointInfo => answer(v, seq![]),
        Pane::List => match v.tab {
            Tab::Processes => load_selected_process(
                AppView { process_scroll: sat_sub(v.process_scroll as int, 10) as usize, ..v },
            ),
            Tab::Memory => load_selected_region(
                AppView { memory_scroll: sat_sub(v.memory_scroll as int, 10) as usize, ..v },
            ),
            Tab::Checkpoints => answer(
                AppView { checkpoint_scroll: sat_sub(v.checkpoint_scroll as int, 10) as usize, ..v },
                seq![],
            ),
        },
    }
}

/// The home key.
pub open spec fn home_key(v: AppView) -> (AppView, Seq<CommandView>) {
    match pane_of(v) {
        Pane::Hex => answer(AppView { hex_scroll: 0, ..v }, seq![]),
        Pane::Dump => answer(AppView { output_scroll: 0, ..v }, seq![]),
        Pane::Info => answer(AppView { process_info_scroll: 0, ..v }, seq![]),
        Pane::CheckpointInfo => answer(v, seq![]),
        Pane::List => match v.tab {
            Tab::Processes => load_selected_process(AppView { process_scroll: 0, ..v }),
            Tab::Memory => load_selected_region(AppView { memory_scroll: 0, ..v }),
            Tab::Checkpoints => answer(AppView { checkpoint_scroll: 0, ..v }, seq![]),
        },
    }
}

/// The end key.
pub open spec fn end_key(v: AppView) -> (AppView, Seq<CommandView>) {
    match pane_of(v) {
        Pane::Hex => answer(AppView { hex_scroll: scroll_limit(v.hex_data) as usize, ..v }, seq![]),
        Pane::Dump => answer(
            AppView { output_scroll: scroll_limit(v.dump_output) as usize, ..v },
            seq![],
        ),
        Pane::Info => answer(
            AppView { process_info_scroll: scroll_limit(v.process_info) as usize, ..v },
            seq![],
        ),
        Pane::CheckpointInfo => answer(v, seq![]),
        Pane::List => match v.tab {
            Tab::Processes => load_selected_process(
                AppView { process_scroll: last_index(v.processes.len()) as usize, ..v },
            ),
            Tab::Memory => load_selected_region(
                AppView { memory_scroll: last_index(v.memory_regions.len()) as usize, ..v },
            ),
            Tab::Checkpoints => answer(
                AppView { checkpoint_scroll: last_index(v.checkpoints.len()) as usize, ..v },
                seq![],
            ),
        },
    }
}

/// Enter outside the inputs: on the process tab it opens the selected process's memory map
/// (hex view closed); on the memory tab it shows the selected region in hex.
pub open spec fn enter_key(v: AppView) -> (AppView, Seq<CommandView>) {
    match v.tab {
        Tab::Processes => match selected_proc(v) {
            Some(p) => answer(
                AppView {
                    tab: Tab::Memory,
                    memory_scroll: 0,
                    show_hex_view: false,
                    hex_data: seq![],
                    ..v
                },
                seq![CommandView::LoadMemoryRegions { pid: p.pid }],
            ),
            None => answer(v, seq![]),
        },
        Tab::Memory => view_key(v),
        Tab::Checkpoints => answer(v, seq![]),
    }
}

/// A character key, in order of precedence: `n`/`N` while the checkpoint question is open,
/// space, `?`, typing into a search, a hex search or symbol entry, then the command letters.
pub open spec fn char_key(v: AppView, c: char) -> (AppView, Seq<CommandView>) {
    if (c == 'n' || c == 'N') && v.show_confirm {
        cancel_confirm(v)
    } else if c == ' ' {
        space_key(v)
    } else if c == '?' {
        answer(AppView { show_help: !v.show_help, ..v }, seq![])
    } else if v.is_searching {
        typed_search(v, c)
    } else if v.is_hex_searching {
        typed_hex_search(v, c)
    } else if v.extended_mode {
        typed_extended(v, c)
    } else if c == 'r' {
        refresh_key(v)
    } else if c == '/' {
        slash_key(v)
    } else if c == 'M' {
        sort_key(v, SortBy::Memory, "Memory"@)
    } else if c == 'P' {
        sort_key(v, SortBy::Pid, "PID"@)
    } else if c == 'N' {
        sort_key(v, SortBy::Name, "Name"@)
    } else if c == 'c' {
        checkpoint_key(v)
    } else if (c == 'y' || c == 'Y') && v.show_confirm {
        confirm_yes(v)
    } else if c == 'u' {
        restore_key(v)
    } else if c == 'd' {
        delete_key(v)
    } else if c == 'p' {
        parasite_key(v)
    } else if c == 'i' {
        inject_key(v)
    } else if c == 'x' {
        extended_key(v)
    } else if c == 'v' {
        view_key(v)
    } else if c == 'j' {
        down_key(v)
    } else if c == 'k' {
        up_key(v)
    } else {
        answer(v, seq![])
    }
}

/// The answer to a key.
pub open spec fn key_step(v: AppView, key: Key) -> (AppView, Seq<CommandView>) {
    match key {
        Key::Tab => answer(switched_to(v, tab_after(v.tab)), seq![]),
        Key::BackTab => answer(switched_to(v, tab_before(v.tab)), seq![]),
        Key::Char(c) => char_key(v, c),
        Key::Esc => esc_key(v),
        Key::Enter => if v.is_searching {
            enter_search(v)
        } else if v.is_hex_searching {
            answer(without_status(AppView { is_hex_searching: false, ..v }), seq![])
        } else if v.extended_mode {
            enter_extended(v)
        } else {
            enter_key(v)
        },
        Key::Backspace => if v.extended_mode {
            backspace_extended(v)
        } else if v.is_searching {
            backspace_search(v)
        } else if v.is_hex_searching {
            backspace_hex(v)
        } else {
            answer(v, seq![])
        },
        Key::Down => down_key(v),
        Key::Up => up_key(v),
        Key::PageDown => page_down_key(v),
        Key::PageUp => page_up_key(v),
        Key::Home => home_key(v),
        Key::End => end_key(v),
        Key::Other => answer(v, seq![]),
    }
}

} // verus!
