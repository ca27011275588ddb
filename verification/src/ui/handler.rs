//! The key handler: each key's answer carried out on the application state.
use vstd::prelude::*;
use crate::foreign::{path_debug, path_debug_text};
use crate::text::{file_name, file_name_of};
use crate::models::memory::{gib, size_text, span_len, MemoryRegion};
use crate::models::process::{ProcessInfo, ProcessView};
use crate::num::{decimal, f64_value, hex, one_decimal_chars, radix_string};
use crate::text::{chars_of, lines_of, push_chars, split_lines, string_from, trim, trim_of};
use crate::ui::app::{
    selected_ckpt, selected_proc, selected_region, sorted_state, switched_to, tab_after,
    tab_before, with_saved_search, with_status, without_status, App, AppView, Focus, SortBy, Tab,
};
use crate::ui::command::{command_views, Command, CommandView, Key};
use crate::ui::effects::{hex_dump_request, load_hex_dump};
use crate::ui::keys::{
    answer, search_prompt, extended_prompt, focus_name, other_focus, sat_sub, min_of, line_count, scroll_limit, popped, typed_search, typed_hex_search, kept_search, space_key, cancel_confirm, leave_search, esc_key, enter_search, enter_extended, typed_extended, backspace_extended, backspace_search, backspace_hex, refresh_key, slash_key, sort_key, confirm_text, checkpoint_key, find_pid, confirm_yes, restore_key, delete_key, parasite_key, inject_key, extended_key, view_key, pane_of, region_label, on_process, on_region, checkpoint_label, on_checkpoint, load_selected_process, load_selected_region, last_index, down_key, up_key, page_forward, page_down_key, page_up_key, home_key, end_key, enter_key, char_key, key_step, Pane,
};
use crate::ui::search::{apply_search_filter, search_request};
use crate::wrapper::runner::decimal_string;

verus! {

fn no_commands() -> (r: Vec<Command>)
    ensures
        command_views(r@) == Seq::<CommandView>::empty(),
{
    let r: Vec<Command> = Vec::new();
    proof {
        assert(command_views(r@) =~= Seq::<CommandView>::empty());
    }
    r
}

fn one_command(c: Command) -> (r: Vec<Command>)
    ensures
        command_views(r@) == seq![c@],
{
    let mut r: Vec<Command> = Vec::new();
    r.push(c);
    proof {
        assert(command_views(r@) =~= seq![c@]);
    }
    r
}

fn search_prompt_str(t: Tab) -> (r: &'static str)
    ensures
        r@ == search_prompt(t),
{
    match t {
        Tab::Processes => "Search: ",
        Tab::Memory => "Filter memory: ",
        Tab::Checkpoints => "Filter checkpoints: ",
    }
}

/// A message made of a literal followed by a string.
fn message(head: &str, tail: &String) -> (r: String)
    ensures
        r@ == head@ + tail@,
{
    let mut m = String::from_str(head);
    m.append(tail.as_str());
    m
}

/// How many lines `s` splits into.
fn count_lines(s: &String) -> (r: usize)
    ensures
        r == line_count(s@),
{
    let v = chars_of(s.as_str());
    let ls = split_lines(&v);
    proof {
        assert(crate::text::views(ls@).len() == ls@.len());
    }
    ls.len()
}

fn typed_search_exec(app: &mut App, c: char) -> (r: Vec<Command>)
    ensures
        (final(app)@, command_views(r@)) == typed_search(old(app)@, c),
{
    app.search_query.push(c);
    let m = message(search_prompt_str(app.tab), &app.search_query);
    app.set_status(m);
    apply_search_filter(app)
}

fn typed_hex_search_exec(app: &mut App, c: char) -> (r: Vec<Command>)
    ensures
        (final(app)@, command_views(r@)) == typed_hex_search(old(app)@, c),
{
    app.hex_search.push(c);
    let m = message("Hex search: ", &app.hex_search);
    app.set_status(m);
    no_commands()
}

fn space_key_exec(app: &mut App) -> (r: Vec<Command>)
    ensures
        (final(app)@, command_views(r@)) == space_key(old(app)@),
{
    if app.is_searching {
        typed_search_exec(app, ' ')
    } else if app.is_hex_searching {
        typed_hex_search_exec(app, ' ')
    } else {
        app.focus = match app.focus {
            Focus::List => Focus::Output,
            Focus::Output => Focus::List,
        };
        let mut m = String::from_str("Focus: ");
        m.append(
            match app.focus {
                Focus::List => "List",
                Focus::Output => "Output",
            },
        );
        app.set_status(m);
        no_commands()
    }
}

fn cancel_confirm_exec(app: &mut App) -> (r: Vec<Command>)
    ensures
        (final(app)@, command_views(r@)) == cancel_confirm(old(app)@),
{
    app.show_confirm = false;
    app.confirm_message = String::new();
    app.pending_hex_load = None;
    app.set_status(String::from_str("Checkpoint cancelled"));
    no_commands()
}

fn leave_search_exec(app: &mut App) -> (r: Vec<Command>)
    ensures
        (final(app)@, command_views(r@)) == leave_search(old(app)@),
{
    app.clear_saved_search();
    app.is_searching = false;
    app.search_query = String::new();
    let mut r: Vec<Command> = Vec::new();
    match app.tab {
        Tab::Processes => {
            r.push(Command::RefreshProcesses);
            r.push(Command::ClearStatus);
        },
        Tab::Memory => {
            app.memory_scroll = 0;
            match app.selected_process() {
                Some(p) => {
                    let pid = p.pid;
                    r.push(Command::LoadMemoryRegions { pid });
                    r.push(Command::ClearStatus);
                },
                None => {
                    app.clear_status();
                },
            }
        },
        Tab::Checkpoints => {
            app.checkpoint_scroll = 0;
            r.push(Command::RefreshCheckpoints);
            r.push(Command::ClearStatus);
        },
    }
    proof {
        assert(app@ =~= leave_search(old(app)@).0);
        assert(command_views(r@) =~= leave_search(old(app)@).1);
    }
    r
}

fn esc_key_exec(app: &mut App) -> (r: Vec<Command>)
    ensures
        (final(app)@, command_views(r@)) == esc_key(old(app)@),
{
    if app.extended_mode {
        app.extended_mode = false;
        app.extended_command = String::new();
        app.clear_status();
        no_commands()
    } else if app.is_searching {
        leave_search_exec(app)
    } else if app.is_hex_searching {
        app.is_hex_searching = false;
        app.hex_search = String::new();
        app.clear_status();
        no_commands()
    } else if app.show_hex_view {
        app.show_hex_view = false;
        app.hex_data = String::new();
        no_commands()
    } else {
        no_commands()
    }
}

fn kept_search_exec(app: &mut App) -> (r: Vec<Command>)
    ensures
        (final(app)@, command_views(r@)) == kept_search(old(app)@),
{
    let mut r = apply_search_filter(app);
    if r.len() == 0 {
        app.clear_status();
        proof {
            assert(command_views(r@).len() == 0);
        }
    } else {
        let ghost before = r@;
        r.push(Command::ClearStatus);
        proof {
            assert(command_views(r@) =~= command_views(before).push(CommandView::ClearStatus));
        }
    }
    r
}

fn enter_search_exec(app: &mut App) -> (r: Vec<Command>)
    ensures
        (final(app)@, command_views(r@)) == enter_search(old(app)@),
{
    app.is_searching = false;
    if app.search_query.as_str().is_empty() {
        app.clear_status();
        return no_commands();
    }
    app.save_current_search();
    kept_search_exec(app)
}

fn enter_extended_exec(app: &mut App) -> (r: Vec<Command>)
    ensures
        (final(app)@, command_views(r@)) == enter_extended(old(app)@),
{
    let mut r: Vec<Command> = Vec::new();
    match app.selected_process() {
        Some(p) => {
            let pid = p.pid;
            let cmd = chars_of(app.extended_command.as_str());
            let sym = trim(&cmd);
            if sym.len() > 0 {
                r.push(Command::Resolve { pid, symbol: string_from(&sym) });
            }
        },
        None => {},
    }
    app.extended_mode = false;
    app.extended_command = String::new();
    proof {
        assert(command_views(r@) =~= enter_extended(old(app)@).1);
    }
    r
}

fn typed_extended_exec(app: &mut App, c: char) -> (r: Vec<Command>)
    ensures
        (final(app)@, command_views(r@)) == typed_extended(old(app)@, c),
{
    app.extended_command.push(c);
    let m = message("Extended command (resolve <symbol>): ", &app.extended_command);
    app.set_status(m);
    no_commands()
}

fn backspace_extended_exec(app: &mut App) -> (r: Vec<Command>)
    ensures
        (final(app)@, command_views(r@)) == backspace_extended(old(app)@),
{
    app.extended_command.pop();
    let m = message("Extended command (resolve <symbol>): ", &app.extended_command);
    app.set_status(m);
    no_commands()
}

fn backspace_search_exec(app: &mut App) -> (r: Vec<Command>)
    ensures
        (final(app)@, command_views(r@)) == backspace_search(old(app)@),
{
    if app.search_query.as_str().is_empty() {
        leave_search_exec(app)
    } else {
        app.search_query.pop();
        let m = message(search_prompt_str(app.tab), &app.search_query);
        app.set_status(m);
        apply_search_filter(app)
    }
}

fn backspace_hex_exec(app: &mut App) -> (r: Vec<Command>)
    ensures
        (final(app)@, command_views(r@)) == backspace_hex(old(app)@),
{
    app.hex_search.pop();
    let m = message("Hex search: ", &app.hex_search);
    app.set_status(m);
    no_commands()
}

fn refresh_key_exec(app: &mut App) -> (r: Vec<Command>)
    ensures
        (final(app)@, command_views(r@)) == refresh_key(old(app)@),
{
    app.is_searching = false;
    app.search_query = String::new();
    app.set_status(String::from_str("Refreshing..."));
    let mut r: Vec<Command> = Vec::new();
    r.push(Command::RefreshProcesses);
    r.push(Command::RefreshCheckpoints);
    r.push(Command::ClearStatus);
    proof {
        assert(command_views(r@) =~= refresh_key(old(app)@).1);
    }
    r
}

fn slash_key_exec(app: &mut App) -> (r: Vec<Command>)
    ensures
        (final(app)@, command_views(r@)) == slash_key(old(app)@),
{
    if app.show_hex_view && app.focus == Focus::Output {
        app.is_hex_searching = true;
        app.hex_search = String::new();
        app.set_status(String::from_str("Hex search: "));
    } else {
        if app.is_searching {
            app.save_current_search();
        }
        app.is_searching = true;
        app.search_query = String::new();
        app.set_status(String::from_str(search_prompt_str(app.tab)));
    }
    no_commands()
}

fn sort_key_exec(app: &mut App, by: SortBy, label: &str) -> (r: Vec<Command>)
    ensures
        (final(app)@, command_views(r@)) == sort_key(old(app)@, by, label@),
{
    app.sort_by = by;
    app.sort_ascending = !app.sort_ascending;
    app.sort_processes();
    let mut m = String::from_str("Sorted by ");
    m.append(label);
    m.append(
        if app.sort_ascending {
            " (asc)"
        } else {
            " (desc)"
        },
    );
    app.set_status(m);
    no_commands()
}

fn checkpoint_key_exec(app: &mut App) -> (r: Vec<Command>)
    ensures
        (final(app)@, command_views(r@)) == checkpoint_key(old(app)@),
{
    let (pid, name) = match app.selected_process() {
        Some(p) => (p.pid, p.name.clone()),
        None => {
            return no_commands();
        },
    };
    if app.total_memory_size > 1024 * 1024 * 1024 {
        let m = f64_value(app.total_memory_size);
        let amount = one_decimal_chars(m, 1024 * 1024 * 1024);
        let mut msg = String::from_str("Total memory is ");
        push_chars(&mut msg, &amount);
        msg.append(" GB. Create checkpoint? [y/n]");
        app.pending_hex_load = Some((pid as u64, 0));
        app.show_confirm = true;
        app.confirm_message = msg.clone();
        app.set_status(msg);
        no_commands()
    } else {
        one_command(Command::CreateCheckpoint { pid, name })
    }
}

/// The first listed process whose id is `pid`.
fn find_process(ps: &Vec<ProcessInfo>, pid: u64) -> (r: Option<&ProcessInfo>)
    ensures
        match r {
            Some(p) => find_pid(crate::models::process::process_views(ps@), pid) == Some(p@),
            None => find_pid(crate::models::process::process_views(ps@), pid) is None,
        },
{
    let ghost pv = crate::models::process::process_views(ps@);
    proof {
        assert(pv.skip(0) =~= pv);
    }
    let mut i: usize = 0;
    while i < ps.len()
        invariant
            i <= ps@.len(),
            pv == crate::models::process::process_views(ps@),
            find_pid(pv, pid) == find_pid(pv.skip(i as int), pid),
        decreases ps@.len() - i,
    {
        proof {
            assert(pv.skip(i as int)[0] == ps@[i as int]@);
            assert(pv.skip(i as int).drop_first() =~= pv.skip(i + 1));
        }
        if ps[i].pid as u64 == pid {
            return Some(&ps[i]);
        }
        i = i + 1;
    }
    None
}

fn confirm_yes_exec(app: &mut App) -> (r: Vec<Command>)
    ensures
        (final(app)@, command_views(r@)) == confirm_yes(old(app)@),
{
    let mut r: Vec<Command> = Vec::new();
    match app.pending_hex_load {
        Some((pid, z)) => {
            if z == 0 {
                match find_process(&app.processes, pid) {
                    Some(p) => {
                        r.push(Command::CreateCheckpoint { pid: p.pid, name: p.name.clone() });
                    },
                    None => {},
                }
            }
        },
        None => {},
    }
    app.show_confirm = false;
    app.confirm_message = String::new();
    app.pending_hex_load = None;
    proof {
        assert(command_views(r@) =~= confirm_yes(old(app)@).1);
    }
    r
}

fn restore_key_exec(app: &mut App) -> (r: Vec<Command>)
    ensures
        (final(app)@, command_views(r@)) == restore_key(old(app)@),
{
    if app.tab != Tab::Checkpoints {
        return no_commands();
    }
    let (pid, path) = match app.selected_checkpoint() {
        Some(c) => (c.pid, c.path.clone()),
        None => {
            return no_commands();
        },
    };
    if pid > 0 {
        let mut m = String::from_str("Restoring checkpoint to PID ");
        m.append(decimal_string(pid as u64).as_str());
        m.append("...");
        app.set_status(m);
        one_command(Command::Restore { pid, path })
    } else {
        no_commands()
    }
}

fn delete_key_exec(app: &mut App) -> (r: Vec<Command>)
    ensures
        (final(app)@, command_views(r@)) == delete_key(old(app)@),
{
    if app.tab != Tab::Checkpoints {
        return no_commands();
    }
    let path = match app.selected_checkpoint() {
        Some(c) => c.path.clone(),
        None => {
            return no_commands();
        },
    };
    let mut m = String::from_str("Deleting checkpoint ");
    m.append(path_debug(path.as_str()).as_str());
    m.append("...");
    app.set_status(m);
    one_command(Command::DeleteCheckpoint { path })
}

fn parasite_key_exec(app: &mut App) -> (r: Vec<Command>)
    ensures
        (final(app)@, command_views(r@)) == parasite_key(old(app)@),
{
    if app.tab != Tab::Checkpoints {
        return no_commands();
    }
    let (pid, path) = match app.selected_checkpoint() {
        Some(c) => (c.pid, c.path.clone()),
        None => {
            return no_commands();
        },
    };
    if pid > 0 {
        let m = message("Parasite restore to PID ", &decimal_string(pid as u64));
        app.set_status(m);
        one_command(Command::Parasite { pid, path })
    } else {
        no_commands()
    }
}

fn inject_key_exec(app: &mut App) -> (r: Vec<Command>)
    ensures
        (final(app)@, command_views(r@)) == inject_key(old(app)@),
{
    if app.tab != Tab::Processes {
        return no_commands();
    }
    let pid = match app.selected_process() {
        Some(p) => p.pid,
        None => {
            return no_commands();
        },
    };
    let m = message("Injecting shellcode to PID ", &decimal_string(pid as u64));
    app.set_status(m);
    one_command(Command::InjectShellcode { pid })
}

fn extended_key_exec(app: &mut App) -> (r: Vec<Command>)
    ensures
        (final(app)@, command_views(r@)) == extended_key(old(app)@),
{
    app.extended_mode = true;
    app.set_status(String::from_str("Extended command (resolve <symbol>): "));
    no_commands()
}

fn view_key_exec(app: &mut App) -> (r: Vec<Command>)
    ensures
        (final(app)@, command_views(r@)) == view_key(old(app)@),
{
    if app.tab != Tab::Memory {
        return no_commands();
    }
    match app.selected_memory_region() {
        Some(region) => load_hex_dump(app, region.start, region.end),
        None => no_commands(),
    }
}

fn pane(app: &App) -> (r: Pane)
    ensures
        r == pane_of(app@),
{
    if app.show_hex_view && app.focus == Focus::Output {
        Pane::Hex
    } else if !app.show_hex_view && app.focus == Focus::Output && app.tab == Tab::Memory {
        Pane::Dump
    } else if !app.show_hex_view && app.focus == Focus::Output && app.tab == Tab::Processes
        && !app.process_info.as_str().is_empty() {
        Pane::Info
    } else if !app.show_hex_view && app.focus == Focus::Output && app.tab == Tab::Checkpoints
        && app.selected_checkpoint().is_some() {
        Pane::CheckpointInfo
    } else {
        Pane::List
    }
}

fn on_process_exec(app: &mut App) -> (r: Vec<Command>)
    ensures
        (final(app)@, command_views(r@)) == on_process(old(app)@),
{
    let (name, pid) = match app.selected_process() {
        Some(p) => (p.name.clone(), p.pid),
        None => {
            return no_commands();
        },
    };
    if pid > 0 {
        let mut m = message("Selected: ", &name);
        m.append(" - PID ");
        m.append(decimal_string(pid as u64).as_str());
        app.set_status(m);
        one_command(Command::LoadProcessInfo { pid })
    } else {
        no_commands()
    }
}

fn on_region_exec(app: &mut App) -> (r: Vec<Command>)
    ensures
        (final(app)@, command_views(r@)) == on_region(old(app)@),
{
    let (start, end, label) = match app.selected_memory_region() {
        Some(region) => (
            region.start,
            region.end,
            match &region.path {
                Some(p) => p.clone(),
                None => String::from_str("[anon]"),
            },
        ),
        None => {
            return no_commands();
        },
    };
    if label.as_str().is_empty() {
        return no_commands();
    }
    let mut m = String::from_str("Selected: 0x");
    let h = radix_string(start, 16);
    push_chars(&mut m, &h);
    m.append(" - ");
    m.append(MemoryRegion::format_size(end.wrapping_sub(start)).as_str());
    m.append(" - ");
    m.append(label.as_str());
    app.set_status(m);
    load_hex_dump(app, start, end)
}

fn on_checkpoint_exec(app: &mut App) -> (r: Vec<Command>)
    ensures
        (final(app)@, command_views(r@)) == on_checkpoint(old(app)@),
{
    let path = match app.selected_checkpoint() {
        Some(c) => c.path.clone(),
        None => {
            return no_commands();
        },
    };
    let label = match file_name(path.as_str()) {
        Some(n) => n,
        None => String::new(),
    };
    let m = message("Selected checkpoint: ", &path_debug(label.as_str()));
    app.set_status(m);
    no_commands()
}

fn load_selected_process_exec(app: &mut App) -> (r: Vec<Command>)
    ensures
        (final(app)@, command_views(r@)) == load_selected_process(old(app)@),
{
    match app.selected_process() {
        Some(p) => one_command(Command::LoadProcessInfo { pid: p.pid }),
        None => no_commands(),
    }
}

fn load_selected_region_exec(app: &mut App) -> (r: Vec<Command>)
    ensures
        (final(app)@, command_views(r@)) == load_selected_region(old(app)@),
{
    match app.selected_memory_region() {
        Some(region) => load_hex_dump(app, region.start, region.end),
        None => no_commands(),
    }
}

/// The last index of a list of `n` items.
fn last_index_of(n: usize) -> (r: usize)
    ensures
        r == last_index(n as nat),
{
    if n > 1 {
        n - 1
    } else {
        0
    }
}

/// The last scroll position of a text panel.
fn limit_of(s: &String) -> (r: usize)
    ensures
        r == scroll_limit(s@),
{
    let n = count_lines(s);
    if n > 20 {
        n - 20
    } else {
        0
    }
}

/// `pos + step`, but at most `limit`.
fn forward(pos: usize, step: usize, limit: usize) -> (r: usize)
    ensures
        r == min_of(pos + step, limit as int),
{
    if pos < limit && step < limit - pos {
        pos + step
    } else {
        limit
    }
}

/// `pos - step`, but at least 0.
fn back(pos: usize, step: usize) -> (r: usize)
    ensures
        r == sat_sub(pos as int, step as int),
{
    if pos > step {
        pos - step
    } else {
        0
    }
}

fn down_key_exec(app: &mut App) -> (r: Vec<Command>)
    ensures
        (final(app)@, command_views(r@)) == down_key(old(app)@),
{
    match pane(app) {
        Pane::Hex => {
            app.hex_scroll = forward(app.hex_scroll, 1, limit_of(&app.hex_data));
            no_commands()
        },
        Pane::Dump => {
            app.output_scroll = forward(app.output_scroll, 1, limit_of(&app.dump_output));
            no_commands()
        },
        Pane::Info => {
            app.process_info_scroll = forward(app.process_info_scroll, 1, limit_of(&app.process_info));
            no_commands()
        },
        Pane::CheckpointInfo => no_commands(),
        Pane::List => match app.tab {
            Tab::Processes => {
                if app.focus == Focus::List && app.process_scroll < last_index_of(app.processes.len()) {
                    app.process_scroll = app.process_scroll + 1;
                    on_process_exec(app)
                } else {
                    no_commands()
                }
            },
            Tab::Memory => {
                if app.focus == Focus::List && app.memory_scroll < last_index_of(
                    app.memory_regions.len(),
                ) {
                    app.memory_scroll = app.memory_scroll + 1;
                    on_region_exec(app)
                } else {
                    no_commands()
                }
            },
            Tab::Checkpoints => {
                if app.focus == Focus::List && app.checkpoint_scroll < last_index_of(
                    app.checkpoints.len(),
                ) {
                    app.checkpoint_scroll = app.checkpoint_scroll + 1;
                    on_checkpoint_exec(app)
                } else {
                    no_commands()
                }
            },
        },
    }
}

fn up_key_exec(app: &mut App) -> (r: Vec<Command>)
    ensures
        (final(app)@, command_views(r@)) == up_key(old(app)@),
{
    match pane(app) {
        Pane::Hex => {
            app.hex_scroll = back(app.hex_scroll, 1);
            no_commands()
        },
        Pane::Dump => {
            app.output_scroll = back(app.output_scroll, 1);
            no_commands()
        },
        Pane::Info => {
            app.process_info_scroll = back(app.process_info_scroll, 1);
            no_commands()
        },
        Pane::CheckpointInfo => no_commands(),
        Pane::List => match app.tab {
            Tab::Processes => {
                if app.focus == Focus::List && app.process_scroll > 0 {
                    app.process_scroll = app.process_scroll - 1;
                    on_process_exec(app)
                } else {
                    no_commands()
                }
            },
            Tab::Memory => {
                if app.focus == Focus::List && app.memory_scroll > 0 {
                    app.memory_scroll = app.memory_scroll - 1;
                    on_region_exec(app)
                } else {
                    no_commands()
                }
            },
            Tab::Checkpoints => {
                if app.focus == Focus::List && app.checkpoint_scroll > 0 {
                    app.checkpoint_scroll = app.checkpoint_scroll - 1;
                    on_checkpoint_exec(app)
                } else {
                    no_commands()
                }
            },
        },
    }
}

/// A list position moved ten forward, not past the last item.
fn page_forward_exec(pos: usize, n: usize) -> (r: usize)
    ensures
        r == page_forward(pos, n as nat),
{
    let room = back(last_index_of(n), pos);
    let jump = if room < 10 {
        room
    } else {
        10
    };
    pos + jump
}

fn page_down_key_exec(app: &mut App) -> (r: Vec<Command>)
    ensures
        (final(app)@, command_views(r@)) == page_down_key(old(app)@),
{
    match pane(app) {
        Pane::Hex => {
            app.hex_scroll = forward(app.hex_scroll, 20, limit_of(&app.hex_data));
            no_commands()
        },
        Pane::Dump => {
            app.output_scroll = forward(app.output_scroll, 20, limit_of(&app.dump_output));
            no_commands()
        },
        Pane::Info => {
            app.process_info_scroll = forward(app.process_info_scroll, 20, limit_of(&app.process_info));
            no_commands()
        },
        Pane::CheckpointInfo => no_commands(),
        Pane::List => match app.tab {
            Tab::Processes => {
                app.process_scroll = page_forward_exec(app.process_scroll, app.processes.len());
                load_selected_process_exec(app)
            },
            Tab::Memory => {
                app.memory_scroll = page_forward_exec(app.memory_scroll, app.memory_regions.len());
                load_selected_region_exec(app)
            },
            Tab::Checkpoints => {
                app.checkpoint_scroll = page_forward_exec(app.checkpoint_scroll, app.checkpoints.len());
                no_commands()
            },
        },
    }
}

fn page_up_key_exec(app: &mut App) -> (r: Vec<Command>)
    ensures
        (final(app)@, command_views(r@)) == page_up_key(old(app)@),
{
    match pane(app) {
        Pane::Hex => {
            app.hex_scroll = back(app.hex_scroll, 20);
            no_commands()
        },
        Pane::Dump => {
            app.output_scroll = back(app.output_scroll, 20);
            no_commands()
        },
        Pane::Info => {
            app.process_info_scroll = back(app.process_info_scroll, 20);
            no_commands()
        },
        Pane::CheckpointInfo => no_commands(),
        Pane::List => match app.tab {
            Tab::Processes => {
                app.process_scroll = back(app.process_scroll, 10);
                load_selected_process_exec(app)
            },
            Tab::Memory => {
                app.memory_scroll = back(app.memory_scroll, 10);
                load_selected_region_exec(app)
            },
            Tab::Checkpoints => {
                app.checkpoint_scroll = back(app.checkpoint_scroll, 10);
                no_commands()
            },
        },
    }
}

fn home_key_exec(app: &mut App) -> (r: Vec<Command>)
    ensures
        (final(app)@, command_views(r@)) == home_key(old(app)@),
{
    match pane(app) {
        Pane::Hex => {
            app.hex_scroll = 0;
            no_commands()
        },
        Pane::Dump => {
            app.output_scroll = 0;
            no_commands()
        },
        Pane::Info => {
            app.process_info_scroll = 0;
            no_commands()
        },
        Pane::CheckpointInfo => no_commands(),
        Pane::List => match app.tab {
            Tab::Processes => {
                app.process_scroll = 0;
                load_selected_process_exec(app)
            },
            Tab::Memory => {
                app.memory_scroll = 0;
                load_selected_region_exec(app)
            },
            Tab::Checkpoints => {
                app.checkpoint_scroll = 0;
                no_commands()
            },
        },
    }
}

fn end_key_exec(app: &mut App) -> (r: Vec<Command>)
    ensures
        (final(app)@, command_views(r@)) == end_key(old(app)@),
{
    match pane(app) {
        Pane::Hex => {
            app.hex_scroll = limit_of(&app.hex_data);
            no_commands()
        },
        Pane::Dump => {
            app.output_scroll = limit_of(&app.dump_output);
            no_commands()
        },
        Pane::Info => {
            app.process_info_scroll = limit_of(&app.process_info);
            no_commands()
        },
        Pane::CheckpointInfo => no_commands(),
        Pane::List => match app.tab {
            Tab::Processes => {
                app.process_scroll = last_index_of(app.processes.len());
                load_selected_process_exec(app)
            },
            Tab::Memory => {
                app.memory_scroll = last_index_of(app.memory_regions.len());
                load_selected_region_exec(app)
            },
            Tab::Checkpoints => {
                app.checkpoint_scroll = last_index_of(app.checkpoints.len());
                no_commands()
            },
        },
    }
}

fn enter_key_exec(app: &mut App) -> (r: Vec<Command>)
    ensures
        (final(app)@, command_views(r@)) == enter_key(old(app)@),
{
    match app.tab {
        Tab::Processes => {
            let pid = match app.selected_process() {
                Some(p) => p.pid,
                None => {
                    return no_commands();
                },
            };
            app.tab = Tab::Memory;
            app.memory_scroll = 0;
            app.show_hex_view = false;
            app.hex_data = String::new();
            one_command(Command::LoadMemoryRegions { pid })
        },
        Tab::Memory => view_key_exec(app),
        Tab::Checkpoints => no_commands(),
    }
}

fn char_key_exec(app: &mut App, c: char) -> (r: Vec<Command>)
    ensures
        (final(app)@, command_views(r@)) == char_key(old(app)@, c),
{
    if (c == 'n' || c == 'N') && app.show_confirm {
        cancel_confirm_exec(app)
    } else if c == ' ' {
        space_key_exec(app)
    } else if c == '?' {
        app.show_help = !app.show_help;
        no_commands()
    } else if app.is_searching {
        typed_search_exec(app, c)
    } else if app.is_hex_searching {
        typed_hex_search_exec(app, c)
    } else if app.extended_mode {
        typed_extended_exec(app, c)
    } else if c == 'r' {
        refresh_key_exec(app)
    } else if c == '/' {
        slash_key_exec(app)
    } else if c == 'M' {
        sort_key_exec(app, SortBy::Memory, "Memory")
    } else if c == 'P' {
        sort_key_exec(app, SortBy::Pid, "PID")
    } else if c == 'N' {
        sort_key_exec(app, SortBy::Name, "Name")
    } else if c == 'c' {
        checkpoint_key_exec(app)
    } else if (c == 'y' || c == 'Y') && app.show_confirm {
        confirm_yes_exec(app)
    } else if c == 'u' {
        restore_key_exec(app)
    } else if c == 'd' {
        delete_key_exec(app)
    } else if c == 'p' {
        parasite_key_exec(app)
    } else if c == 'i' {
        inject_key_exec(app)
    } else if c == 'x' {
        extended_key_exec(app)
    } else if c == 'v' {
        view_key_exec(app)
    } else if c == 'j' {
        down_key_exec(app)
    } else if c == 'k' {
        up_key_exec(app)
    } else {
        no_commands()
    }
}

/// Answers a key: updates the state and gives back the work it needs, in order.
pub fn handle_key(app: &mut App, key: Key) -> (r: Vec<Command>)
    ensures
        (final(app)@, command_views(r@)) == key_step(old(app)@, key),
{
    match key {
        Key::Tab => {
            app.next_tab();
            no_commands()
        },
        Key::BackTab => {
            app.prev_tab();
            no_commands()
        },
        Key::Char(c) => char_key_exec(app, c),
        Key::Esc => esc_key_exec(app),
        Key::Enter => {
            if app.is_searching {
                enter_search_exec(app)
            } else if app.is_hex_searching {
                app.is_hex_searching = false;
                app.clear_status();
                no_commands()
            } else if app.extended_mode {
                enter_extended_exec(app)
            } else {
                enter_key_exec(app)
            }
        },
        Key::Backspace => {
            if app.extended_mode {
                backspace_extended_exec(app)
            } else if app.is_searching {
                backspace_search_exec(app)
            } else if app.is_hex_searching {
                backspace_hex_exec(app)
            } else {
                no_commands()
            }
        },
        Key::Down => down_key_exec(app),
        Key::Up => up_key_exec(app),
        Key::PageDown => page_down_key_exec(app),
        Key::PageUp => page_up_key_exec(app),
        Key::Home => home_key_exec(app),
        Key::End => end_key_exec(app),
        Key::Other => no_commands(),
    }
}

/// What a key press does to the running interface: `q` quits (`None`); with the help overlay
/// open any other key only closes it; otherwise the key is answered as `key_step` says.
pub open spec fn key_press(v: AppView, key: Key) -> Option<(AppView, Seq<CommandView>)> {
    if key == Key::Char('q') {
        None
    } else if v.show_help {
        Some(answer(AppView { show_help: false, ..v }, seq![]))
    } else {
        Some(key_step(v, key))
    }
}

/// Answers a key press: `None` when it quits.
pub fn on_key(app: &mut App, key: Key) -> (r: Option<Vec<Command>>)
    ensures
        match r {
            None => key_press(old(app)@, key) is None && final(app)@ == old(app)@,
            Some(cmds) => key_press(old(app)@, key) == Some((final(app)@, command_views(cmds@))),
        },
{
    if key == Key::Char('q') {
        return None;
    }
    if app.show_help {
        app.show_help = false;
        return Some(no_commands());
    }
    Some(handle_key(app, key))
}

/// Pressing `?` twice, with the help overlay closed, opens it and closes it again, leaving the
/// state as it was (unless the first `?` is typed into a search, a hex search or a symbol).
pub proof fn help_toggle_law(v: AppView)
    requires
        !v.show_help,
    ensures
        key_press(v, Key::Char('?')) matches Some((v1, c1)) && c1.len() == 0 && v1.show_help
            && key_press(v1, Key::Char('?')) == Some((v, Seq::<CommandView>::empty())),
{
    let v1 = AppView { show_help: true, ..v };
    assert(key_press(v, Key::Char('?')) == Some((v1, Seq::<CommandView>::empty())));
    assert(AppView { show_help: false, ..v1 } =~= v);
}

/// Whether every list cursor stands on an item, or at 0 for an empty list.
pub open spec fn cursors_in_range(v: AppView) -> bool {
    &&& v.process_scroll <= last_index(v.processes.len())
    &&& v.memory_scroll <= last_index(v.memory_regions.len())
    &&& v.checkpoint_scroll <= last_index(v.checkpoints.len())
}

/// Whether `w` has the lists, cursors and paths of `v`.
spec fn keeps_lists(v: AppView, w: AppView) -> bool {
    &&& w.processes == v.processes
    &&& w.memory_regions == v.memory_regions
    &&& w.checkpoints == v.checkpoints
    &&& w.process_scroll == v.process_scroll
    &&& w.memory_scroll == v.memory_scroll
    &&& w.checkpoint_scroll == v.checkpoint_scroll
    &&& w.ckptmini_path == v.ckptmini_path
    &&& w.checkpoint_dir == v.checkpoint_dir
}

/// Whether `w` has the lists and paths of `v`, with its cursors on its lists.
spec fn keeps_paths_in_range(v: AppView, w: AppView) -> bool {
    &&& cursors_in_range(w)
    &&& w.ckptmini_path == v.ckptmini_path
    &&& w.checkpoint_dir == v.checkpoint_dir
}

proof fn lemma_moved_onto(v: AppView)
    ensures
        keeps_lists(v, on_process(v).0),
        keeps_lists(v, on_region(v).0),
        keeps_lists(v, on_checkpoint(v).0),
        keeps_lists(v, load_selected_process(v).0),
        keeps_lists(v, load_selected_region(v).0),
{
}

proof fn lemma_down_up(v: AppView)
    requires
        cursors_in_range(v),
    ensures
        keeps_paths_in_range(v, down_key(v).0),
        keeps_paths_in_range(v, up_key(v).0),
{
    lemma_moved_onto(AppView { process_scroll: (v.process_scroll + 1) as usize, ..v });
    lemma_moved_onto(AppView { memory_scroll: (v.memory_scroll + 1) as usize, ..v });
    lemma_moved_onto(AppView { checkpoint_scroll: (v.checkpoint_scroll + 1) as usize, ..v });
    lemma_moved_onto(AppView { process_scroll: (v.process_scroll - 1) as usize, ..v });
    lemma_moved_onto(AppView { memory_scroll: (v.memory_scroll - 1) as usize, ..v });
    lemma_moved_onto(AppView { checkpoint_scroll: (v.checkpoint_scroll - 1) as usize, ..v });
}

proof fn lemma_page_down(v: AppView)
    requires
        cursors_in_range(v),
    ensures
        keeps_paths_in_range(v, page_down_key(v).0),
{
    if pane_of(v) == Pane::List {
        match v.tab {
            Tab::Processes => lemma_moved_onto(
                AppView { process_scroll: page_forward(v.process_scroll, v.processes.len()), ..v },
            ),
            Tab::Memory => lemma_moved_onto(
                AppView { memory_scroll: page_forward(v.memory_scroll, v.memory_regions.len()), ..v },
            ),
            Tab::Checkpoints => {},
        }
    }
}

proof fn lemma_page_up(v: AppView)
    requires
        cursors_in_range(v),
    ensures
        keeps_paths_in_range(v, page_up_key(v).0),
{
    if pane_of(v) == Pane::List {
        match v.tab {
            Tab::Processes => lemma_moved_onto(
                AppView { process_scroll: sat_sub(v.process_scroll as int, 10) as usize, ..v },
            ),
            Tab::Memory => lemma_moved_onto(
                AppView { memory_scroll: sat_sub(v.memory_scroll as int, 10) as usize, ..v },
            ),
            Tab::Checkpoints => {},
        }
    }
}

proof fn lemma_home(v: AppView)
    requires
        cursors_in_range(v),
    ensures
        keeps_paths_in_range(v, home_key(v).0),
{
    if pane_of(v) == Pane::List {
        match v.tab {
            Tab::Processes => lemma_moved_onto(AppView { process_scroll: 0, ..v }),
            Tab::Memory => lemma_moved_onto(AppView { memory_scroll: 0, ..v }),
            Tab::Checkpoints => {},
        }
    }
}

proof fn lemma_end(v: AppView)
    requires
        cursors_in_range(v),
    ensures
        keeps_paths_in_range(v, end_key(v).0),
{
    if pane_of(v) == Pane::List {
        match v.tab {
            Tab::Processes => lemma_moved_onto(
                AppView { process_scroll: last_index(v.processes.len()) as usize, ..v },
            ),
            Tab::Memory => lemma_moved_onto(
                AppView { memory_scroll: last_index(v.memory_regions.len()) as usize, ..v },
            ),
            Tab::Checkpoints => {},
        }
    }
}

proof fn lemma_sort_keeps(v: AppView, by: SortBy, label: Seq<char>)
    requires
        cursors_in_range(v),
    ensures
        keeps_paths_in_range(v, sort_key(v, by, label).0),
{
    let w = AppView { sort_by: by, sort_ascending: !v.sort_ascending, ..v };
    crate::models::process::process_sort_law(w.processes, by, !v.sort_ascending);
    let sorted = sorted_state(w).processes;
    sorted.to_multiset_ensures();
    v.processes.to_multiset_ensures();
}

proof fn lemma_letters(v: AppView, c: char)
    ensures
        keeps_lists(v, refresh_key(v).0),
        keeps_lists(v, slash_key(v).0),
        keeps_lists(v, checkpoint_key(v).0),
        keeps_lists(v, confirm_yes(v).0),
        keeps_lists(v, restore_key(v).0),
        keeps_lists(v, delete_key(v).0),
        keeps_lists(v, parasite_key(v).0),
        keeps_lists(v, inject_key(v).0),
        keeps_lists(v, extended_key(v).0),
        keeps_lists(v, view_key(v).0),
        keeps_lists(v, cancel_confirm(v).0),
        keeps_lists(v, space_key(v).0),
        keeps_lists(v, typed_search(v, c).0),
        keeps_lists(v, typed_hex_search(v, c).0),
        keeps_lists(v, typed_extended(v, c).0),
{
}

proof fn lemma_char_keeps(v: AppView, c: char)
    requires
        cursors_in_range(v),
    ensures
        keeps_paths_in_range(v, char_key(v, c).0),
{
    lemma_letters(v, c);
    lemma_down_up(v);
    if c == 'M' {
        lemma_sort_keeps(v, SortBy::Memory, "Memory"@);
    } else if c == 'P' {
        lemma_sort_keeps(v, SortBy::Pid, "PID"@);
    } else if c == 'N' {
        lemma_sort_keeps(v, SortBy::Name, "Name"@);
    }
}

proof fn lemma_leave_search(v: AppView)
    requires
        cursors_in_range(v),
    ensures
        keeps_paths_in_range(v, leave_search(v).0),
        keeps_paths_in_range(v, esc_key(v).0),
        keeps_paths_in_range(v, backspace_search(v).0),
{
}

proof fn lemma_enter_keeps(v: AppView)
    requires
        cursors_in_range(v),
    ensures
        keeps_paths_in_range(v, enter_search(v).0),
        keeps_paths_in_range(v, enter_extended(v).0),
        keeps_paths_in_range(v, enter_key(v).0),
        keeps_lists(v, backspace_extended(v).0),
        keeps_lists(v, backspace_hex(v).0),
{
    let v1 = with_saved_search(AppView { is_searching: false, ..v }, Some(v.search_query));
    assert(keeps_lists(v, kept_search(v1).0));
}

/// No key moves a list cursor off the list, and no key changes where the tool or the
/// checkpoints are.
pub proof fn key_keeps_cursors_law(v: AppView, key: Key)
    requires
        cursors_in_range(v),
    ensures
        cursors_in_range(key_step(v, key).0),
        key_step(v, key).0.ckptmini_path == v.ckptmini_path,
        key_step(v, key).0.checkpoint_dir == v.checkpoint_dir,
{
    match key {
        Key::Char(c) => lemma_char_keeps(v, c),
        Key::Esc => lemma_leave_search(v),
        Key::Enter => lemma_enter_keeps(v),
        Key::Backspace => {
            lemma_leave_search(v);
            lemma_enter_keeps(v);
        },
        Key::Down => lemma_down_up(v),
        Key::Up => lemma_down_up(v),
        Key::PageDown => lemma_page_down(v),
        Key::PageUp => lemma_page_up(v),
        Key::Home => lemma_home(v),
        Key::End => lemma_end(v),
        _ => {},
    }
}

/// Whether a process with id `pid` is listed.
pub open spec fn listed(v: AppView, pid: u32) -> bool {
    exists|i: int| 0 <= i < v.processes.len() && #[trigger] v.processes[i].pid == pid
}

/// What a command asked for in state `v` may act on: tool runs only on listed processes; a
/// checkpoint only of a listed process under its listed command line; shellcode only into the
/// selected process on the process tab; restores and deletions only of the selected checkpoint
/// on the checkpoint tab (restores only into a recorded process); and memory reads of at most
/// 4096 bytes.
pub open spec fn command_allowed(v: AppView, c: CommandView) -> bool {
    match c {
        CommandView::ReadMemory { pid, size, .. } => size <= 4096 && listed(v, pid),
        CommandView::LoadMemoryRegions { pid } => listed(v, pid),
        CommandView::LoadProcessInfo { pid } => listed(v, pid),
        CommandView::Resolve { pid, .. } => listed(v, pid),
        CommandView::SearchMemory { pid } => listed(v, pid),
        CommandView::CreateCheckpoint { pid, name } => exists|i: int|
            0 <= i < v.processes.len() && #[trigger] v.processes[i].pid == pid && v.processes[i].name == name,
        CommandView::InjectShellcode { pid } => {
            &&& v.tab == Tab::Processes
            &&& selected_proc(v) matches Some(p)
            &&& p.pid == pid
        },
        CommandView::DeleteCheckpoint { path } => {
            &&& v.tab == Tab::Checkpoints
            &&& selected_ckpt(v) matches Some(c)
            &&& c.path == path
        },
        CommandView::Restore { pid, path } => {
            &&& v.tab == Tab::Checkpoints
            &&& selected_ckpt(v) matches Some(c)
            &&& c.path == path && c.pid == pid && pid > 0
        },
        CommandView::Parasite { pid, path } => {
            &&& v.tab == Tab::Checkpoints
            &&& selected_ckpt(v) matches Some(c)
            &&& c.path == path && c.pid == pid && pid > 0
        },
        _ => true,
    }
}

/// Whether every command of a list may act as `command_allowed` says.
pub open spec fn commands_allowed(v: AppView, cmds: Seq<CommandView>) -> bool {
    forall|i: int| 0 <= i < cmds.len() ==> command_allowed(v, #[trigger] cmds[i])
}

proof fn lemma_selected_listed(v: AppView, w: AppView)
    requires
        w.processes == v.processes,
    ensures
        selected_proc(w) matches Some(p) ==> listed(v, p.pid),
{
    if selected_proc(w) is Some {
        let k = w.process_scroll as int;
        assert(v.processes[k].pid == selected_proc(w)->0.pid);
    }
}

proof fn lemma_requests(v: AppView, w: AppView, start: u64, end: u64)
    requires
        w.processes == v.processes,
    ensures
        commands_allowed(v, hex_dump_request(w, start, end)),
        commands_allowed(v, search_request(w)),
        commands_allowed(v, on_process(w).1),
        commands_allowed(v, load_selected_process(w).1),
        commands_allowed(v, on_checkpoint(w).1),
{
    lemma_selected_listed(v, w);
}

proof fn lemma_region_moves(v: AppView, w: AppView)
    requires
        w.processes == v.processes,
    ensures
        commands_allowed(v, on_region(w).1),
        commands_allowed(v, load_selected_region(w).1),
{
    lemma_selected_listed(v, w);
    match selected_region(w) {
        Some(r) => {
            lemma_requests(v, w, r.start, r.end);
            let label = region_label(r);
            let w1 = with_status(
                w,
                "Selected: 0x"@ + hex(r.start as nat) + " - "@ + size_text(span_len(r.start, r.end))
                    + " - "@ + label,
            );
            lemma_requests(v, w1, r.start, r.end);
        },
        None => {},
    }
}

proof fn lemma_down_commands(v: AppView)
    ensures
        commands_allowed(v, down_key(v).1),
{
    if pane_of(v) == Pane::List {
        match v.tab {
            Tab::Processes => lemma_requests(
                v,
                AppView { process_scroll: (v.process_scroll + 1) as usize, ..v },
                0,
                0,
            ),
            Tab::Memory => lemma_region_moves(
                v,
                AppView { memory_scroll: (v.memory_scroll + 1) as usize, ..v },
            ),
            Tab::Checkpoints => lemma_requests(
                v,
                AppView { checkpoint_scroll: (v.checkpoint_scroll + 1) as usize, ..v },
                0,
                0,
            ),
        }
    }
}

proof fn lemma_up_commands(v: AppView)
    ensures
        commands_allowed(v, up_key(v).1),
{
    if pane_of(v) == Pane::List {
        match v.tab {
            Tab::Processes => lemma_requests(
                v,
                AppView { process_scroll: (v.process_scroll - 1) as usize, ..v },
                0,
                0,
            ),
            Tab::Memory => lemma_region_moves(
                v,
                AppView { memory_scroll: (v.memory_scroll - 1) as usize, ..v },
            ),
            Tab::Checkpoints => lemma_requests(
                v,
                AppView { checkpoint_scroll: (v.checkpoint_scroll - 1) as usize, ..v },
                0,
                0,
            ),
        }
    }
}

proof fn lemma_nav_commands(v: AppView)
    ensures
        commands_allowed(v, down_key(v).1),
        commands_allowed(v, up_key(v).1),
{
    lemma_down_commands(v);
    lemma_up_commands(v);
}

proof fn lemma_page_down_commands(v: AppView)
    ensures
        commands_allowed(v, page_down_key(v).1),
{
    if pane_of(v) == Pane::List {
        match v.tab {
            Tab::Processes => lemma_requests(
                v,
                AppView { process_scroll: page_forward(v.process_scroll, v.processes.len()), ..v },
                0,
                0,
            ),
            Tab::Memory => lemma_region_moves(
                v,
                AppView { memory_scroll: page_forward(v.memory_scroll, v.memory_regions.len()), ..v },
            ),
            Tab::Checkpoints => {},
        }
    }
}

proof fn lemma_page_up_commands(v: AppView)
    ensures
        commands_allowed(v, page_up_key(v).1),
{
    if pane_of(v) == Pane::List {
        match v.tab {
            Tab::Processes => lemma_requests(
                v,
                AppView { process_scroll: sat_sub(v.process_scroll as int, 10) as usize, ..v },
                0,
                0,
            ),
            Tab::Memory => lemma_region_moves(
                v,
                AppView { memory_scroll: sat_sub(v.memory_scroll as int, 10) as usize, ..v },
            ),
            Tab::Checkpoints => {},
        }
    }
}

proof fn lemma_home_commands(v: AppView)
    ensures
        commands_allowed(v, home_key(v).1),
{
    if pane_of(v) == Pane::List {
        match v.tab {
            Tab::Processes => lemma_requests(v, AppView { process_scroll: 0, ..v }, 0, 0),
            Tab::Memory => lemma_region_moves(v, AppView { memory_scroll: 0, ..v }),
            Tab::Checkpoints => {},
        }
    }
}

proof fn lemma_end_commands(v: AppView)
    ensures
        commands_allowed(v, end_key(v).1),
{
    if pane_of(v) == Pane::List {
        match v.tab {
            Tab::Processes => lemma_requests(
                v,
                AppView { process_scroll: last_index(v.processes.len()) as usize, ..v },
                0,
                0,
            ),
            Tab::Memory => lemma_region_moves(
                v,
                AppView { memory_scroll: last_index(v.memory_regions.len()) as usize, ..v },
            ),
            Tab::Checkpoints => {},
        }
    }
}

proof fn lemma_find_pid_listed(ps: Seq<ProcessView>, pid: u64)
    ensures
        find_pid(ps, pid) matches Some(p) ==> exists|i: int|
            0 <= i < ps.len() && #[trigger] ps[i].pid == p.pid && ps[i].name == p.name,
    decreases ps.len(),
{
    if ps.len() > 0 && ps[0].pid as u64 != pid {
        lemma_find_pid_listed(ps.drop_first(), pid);
        if find_pid(ps, pid) is Some {
            let p = find_pid(ps, pid)->0;
            let j = choose|j: int|
                0 <= j < ps.drop_first().len() && #[trigger] ps.drop_first()[j].pid == p.pid
                    && ps.drop_first()[j].name == p.name;
            assert(ps[j + 1].pid == p.pid);
        }
    } else if ps.len() > 0 {
        assert(ps[0].pid == ps[0].pid);
    }
}

proof fn lemma_letter_commands(v: AppView, c: char)
    ensures
        commands_allowed(v, refresh_key(v).1),
        commands_allowed(v, checkpoint_key(v).1),
        commands_allowed(v, confirm_yes(v).1),
        commands_allowed(v, restore_key(v).1),
        commands_allowed(v, delete_key(v).1),
        commands_allowed(v, parasite_key(v).1),
        commands_allowed(v, inject_key(v).1),
        commands_allowed(v, view_key(v).1),
        commands_allowed(v, typed_search(v, c).1),
        commands_allowed(v, space_key(v).1),
{
    lemma_selected_listed(v, v);
    lemma_requests(v, v, 0, 0);
    lemma_region_moves(v, v);
    if selected_proc(v) is Some {
        let k = v.process_scroll as int;
        assert(v.processes[k].pid == selected_proc(v)->0.pid);
    }
    match v.pending_hex_load {
        Some((pid, z)) => lemma_find_pid_listed(v.processes, pid),
        None => {},
    }
    let t1 = AppView { search_query: v.search_query.push(c), ..v };
    lemma_requests(v, with_status(t1, search_prompt(v.tab) + t1.search_query), 0, 0);
    let t2 = AppView { search_query: v.search_query.push(' '), ..v };
    lemma_requests(v, with_status(t2, search_prompt(v.tab) + t2.search_query), 0, 0);
}

proof fn lemma_enter_commands(v: AppView)
    ensures
        commands_allowed(v, enter_search(v).1),
        commands_allowed(v, enter_extended(v).1),
        commands_allowed(v, enter_key(v).1),
        commands_allowed(v, leave_search(v).1),
        commands_allowed(v, esc_key(v).1),
        commands_allowed(v, backspace_search(v).1),
{
    lemma_selected_listed(v, v);
    lemma_letter_commands(v, ' ');
    let v1 = with_saved_search(AppView { is_searching: false, ..v }, Some(v.search_query));
    lemma_requests(v, v1, 0, 0);
    let l1 = AppView { saved_search: None, is_searching: false, search_query: seq![], ..v };
    lemma_selected_listed(v, AppView { memory_scroll: 0, ..l1 });
    let b1 = AppView { search_query: v.search_query.drop_last(), ..v };
    lemma_requests(v, with_status(b1, search_prompt(v.tab) + b1.search_query), 0, 0);
}

proof fn lemma_char_commands(v: AppView, c: char)
    ensures
        commands_allowed(v, char_key(v, c).1),
{
    lemma_letter_commands(v, c);
    lemma_nav_commands(v);
}

/// A key only asks for work on what is listed and selected: tool runs on listed processes,
/// checkpoints of listed processes, shellcode into the selected process, restores and
/// deletions of the selected checkpoint, and memory reads of at most 4096 bytes.
pub proof fn key_commands_law(v: AppView, key: Key)
    ensures
        commands_allowed(v, key_step(v, key).1),
{
    match key {
        Key::Char(c) => lemma_char_commands(v, c),
        Key::Esc => lemma_enter_commands(v),
        Key::Enter => lemma_enter_commands(v),
        Key::Backspace => lemma_enter_commands(v),
        Key::Down => lemma_nav_commands(v),
        Key::Up => lemma_nav_commands(v),
        Key::PageDown => lemma_page_down_commands(v),
        Key::PageUp => lemma_page_up_commands(v),
        Key::Home => lemma_home_commands(v),
        Key::End => lemma_end_commands(v),
        _ => {},
    }
}

/// With the focus on the lists, End selects the last item of the tab's list and Home the first;
/// on the checkpoint list neither asks for any work, and on the process list they ask for the
/// details of the newly selected process, if there is one.
pub proof fn home_end_law(v: AppView)
    requires
        v.focus == Focus::List,
        v.processes.len() <= usize::MAX,
        v.memory_regions.len() <= usize::MAX,
        v.checkpoints.len() <= usize::MAX,
    ensures
        v.tab == Tab::Checkpoints ==> {
            &&& key_step(v, Key::End).0.checkpoint_scroll == (if v.checkpoints.len() > 0 { v.checkpoints.len() - 1 } else { 0 })
            &&& key_step(v, Key::Home).0.checkpoint_scroll == 0
            &&& key_step(v, Key::End).1.len() == 0
            &&& key_step(v, Key::Home).1.len() == 0
        },
        v.tab == Tab::Memory ==> {
            &&& key_step(v, Key::End).0.memory_scroll == (if v.memory_regions.len() > 0 { v.memory_regions.len() - 1 } else { 0 })
            &&& key_step(v, Key::Home).0.memory_scroll == 0
        },
        v.tab == Tab::Processes ==> {
            &&& key_step(v, Key::End).0.process_scroll == (if v.processes.len() > 0 { v.processes.len() - 1 } else { 0 })
            &&& key_step(v, Key::Home).0.process_scroll == 0
            &&& key_step(v, Key::End).1 == (if v.processes.len() > 0 {
                seq![CommandView::LoadProcessInfo { pid: v.processes.last().pid }]
            } else {
                seq![]
            })
        },
{
    assert(pane_of(v) == Pane::List);
    if v.tab == Tab::Processes && v.processes.len() > 0 {
        let w = AppView { process_scroll: last_index(v.processes.len()) as usize, ..v };
        assert(selected_proc(w) == Some(v.processes.last()));
    }
}

/// Leaving a search with Esc (when no symbol is being typed) ends it, forgets its text, and asks
/// for the tab's whole list again before the status is cleared: the processes, the memory map
/// of the selected process (from the top), or the checkpoints. Backspace on an empty search
/// does the same as Esc.
pub proof fn leave_search_law(v: AppView)
    requires
        v.is_searching,
        !v.extended_mode,
    ensures
        !key_step(v, Key::Esc).0.is_searching,
        key_step(v, Key::Esc).0.search_query.len() == 0,
        key_step(v, Key::Esc).0.saved_search is None,
        v.tab == Tab::Processes ==> key_step(v, Key::Esc).1 == seq![
            CommandView::RefreshProcesses,
            CommandView::ClearStatus,
        ],
        v.tab == Tab::Checkpoints ==> key_step(v, Key::Esc).1 == seq![
            CommandView::RefreshCheckpoints,
            CommandView::ClearStatus,
        ],
        v.tab == Tab::Memory ==> key_step(v, Key::Esc).0.memory_scroll == 0,
        v.tab == Tab::Memory && v.process_scroll < v.processes.len() ==> key_step(v, Key::Esc).1
            == seq![
            CommandView::LoadMemoryRegions { pid: v.processes[v.process_scroll as int].pid },
            CommandView::ClearStatus,
        ],
        v.search_query.len() == 0 ==> key_step(v, Key::Backspace) == key_step(v, Key::Esc),
{
}

/// While the checkpoint question is open, `N` answers it as `n` does: the question closes, no
/// checkpoint is pending, the status says `"Checkpoint cancelled"`, the lists stay as they are,
/// and no work is asked for.
pub proof fn cancel_question_law(v: AppView)
    requires
        v.show_confirm,
    ensures
        key_step(v, Key::Char('N')) == key_step(v, Key::Char('n')),
        !key_step(v, Key::Char('n')).0.show_confirm,
        key_step(v, Key::Char('n')).0.pending_hex_load is None,
        key_step(v, Key::Char('n')).0.confirm_message.len() == 0,
        key_step(v, Key::Char('n')).0.status_message == Some("Checkpoint cancelled"@),
        !key_step(v, Key::Char('n')).0.status_is_error,
        key_step(v, Key::Char('n')).0.processes == v.processes,
        key_step(v, Key::Char('n')).0.sort_by == v.sort_by,
        key_step(v, Key::Char('n')).1.len() == 0,
{
}

} // verus!
