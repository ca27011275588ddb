use ckptmini_tui::models::checkpoint::CheckpointInfo;
use ckptmini_tui::models::memory::{MemoryRegion, Permissions};
use ckptmini_tui::models::process::{ProcessInfo, ProcessState};
use ckptmini_tui::ui::app::{App, Focus, SortBy, Tab};
use ckptmini_tui::ui::command::{Command, Key};
use ckptmini_tui::ui::handler::{handle_key, on_key};

fn process(pid: u32, name: &str, memory_total: u64) -> ProcessInfo {
    ProcessInfo { pid, name: name.to_string(), memory_total, threads: 1, state: ProcessState::Running }
}

fn region(start: u64, end: u64, path: Option<&str>) -> MemoryRegion {
    MemoryRegion {
        start,
        end,
        perms: Permissions { read: true, write: false, execute: false },
        offset: 0,
        device: String::new(),
        inode: 0,
        path: path.map(|p| p.to_string()),
    }
}

fn checkpoint(path: &str, pid: u32) -> CheckpointInfo {
    CheckpointInfo { path: path.to_string(), pid, created: 0, regions: 0, size_bytes: 0, command: String::new() }
}

fn app_with_processes() -> App {
    let mut app = App::new("/bin/ckptmini".to_string(), "/tmp/ck".to_string());
    app.processes = vec![process(100, "bash", 300), process(0, "idle", 200), process(7, "vim x", 100)];
    app
}

fn press(app: &mut App, keys: &str) -> Vec<Command> {
    let mut all = Vec::new();
    for c in keys.chars() {
        all.extend(handle_key(app, Key::Char(c)));
    }
    all
}

#[test]
fn tab_keys_switch_tabs() {
    let mut app = app_with_processes();
    assert!(handle_key(&mut app, Key::Tab).is_empty());
    assert_eq!(app.tab, Tab::Memory);
    assert!(handle_key(&mut app, Key::BackTab).is_empty());
    assert!(handle_key(&mut app, Key::BackTab).is_empty());
    assert_eq!(app.tab, Tab::Checkpoints);
    assert_eq!(app.output_log.last().unwrap(), "[mode] Switched to Checkpoints");
}

#[test]
fn help_opens_closes_and_quit() {
    let mut app = app_with_processes();
    assert!(on_key(&mut app, Key::Char('?')).unwrap().is_empty());
    assert!(app.show_help);
    // with help open any key only closes it
    assert!(on_key(&mut app, Key::Down).unwrap().is_empty());
    assert!(!app.show_help);
    assert_eq!(app.process_scroll, 0);
    assert!(on_key(&mut app, Key::Char('q')).is_none());
    // q quits even with help open
    app.show_help = true;
    assert!(on_key(&mut app, Key::Char('q')).is_none());
    assert!(app.show_help);
}

#[test]
fn space_moves_the_focus() {
    let mut app = app_with_processes();
    assert!(handle_key(&mut app, Key::Char(' ')).is_empty());
    assert_eq!(app.focus, Focus::Output);
    assert_eq!(app.status_message.as_deref(), Some("Focus: Output"));
    handle_key(&mut app, Key::Char(' '));
    assert_eq!(app.focus, Focus::List);
    assert_eq!(app.status_message.as_deref(), Some("Focus: List"));
}

#[test]
fn down_and_up_on_the_process_list() {
    let mut app = app_with_processes();
    let cmds = handle_key(&mut app, Key::Down);
    assert_eq!(app.process_scroll, 1);
    // process 0 gets no status and no details
    assert!(cmds.is_empty());
    let cmds = handle_key(&mut app, Key::Char('j'));
    assert_eq!(app.process_scroll, 2);
    assert_eq!(app.status_message.as_deref(), Some("Selected: vim x - PID 7"));
    assert!(matches!(cmds.as_slice(), [Command::LoadProcessInfo { pid: 7 }]));
    // at the end nothing moves
    assert!(handle_key(&mut app, Key::Down).is_empty());
    assert_eq!(app.process_scroll, 2);
    handle_key(&mut app, Key::Up);
    let cmds = handle_key(&mut app, Key::Char('k'));
    assert_eq!(app.process_scroll, 0);
    assert!(matches!(cmds.as_slice(), [Command::LoadProcessInfo { pid: 100 }]));
    assert!(handle_key(&mut app, Key::Up).is_empty());
    assert_eq!(app.process_scroll, 0);
}

#[test]
fn paging_home_and_end() {
    let mut app = App::new(String::new(), String::new());
    app.processes = (1..=25).map(|i| process(i, "p", 0)).collect();
    let cmds = handle_key(&mut app, Key::PageDown);
    assert_eq!(app.process_scroll, 10);
    assert!(matches!(cmds.as_slice(), [Command::LoadProcessInfo { pid: 11 }]));
    handle_key(&mut app, Key::PageDown);
    handle_key(&mut app, Key::PageDown);
    assert_eq!(app.process_scroll, 24);
    handle_key(&mut app, Key::PageUp);
    assert_eq!(app.process_scroll, 14);
    handle_key(&mut app, Key::Home);
    assert_eq!(app.process_scroll, 0);
    let cmds = handle_key(&mut app, Key::End);
    assert_eq!(app.process_scroll, 24);
    assert!(matches!(cmds.as_slice(), [Command::LoadProcessInfo { pid: 25 }]));
    // an empty list stays at 0
    let mut empty = App::new(String::new(), String::new());
    for k in [Key::End, Key::PageDown, Key::Down, Key::Up, Key::PageUp, Key::Home] {
        assert!(handle_key(&mut empty, k).is_empty());
        assert_eq!(empty.process_scroll, 0);
    }
}

#[test]
fn scrolling_the_output_panels() {
    let mut app = app_with_processes();
    app.focus = Focus::Output;
    app.process_info = (0..25).map(|i| format!("line {}\n", i)).collect();
    handle_key(&mut app, Key::Down);
    assert_eq!(app.process_info_scroll, 1);
    handle_key(&mut app, Key::PageDown);
    assert_eq!(app.process_info_scroll, 5);
    handle_key(&mut app, Key::Home);
    assert_eq!(app.process_info_scroll, 0);
    handle_key(&mut app, Key::End);
    assert_eq!(app.process_info_scroll, 5);
    assert_eq!(app.process_scroll, 0);

    app.show_hex_view = true;
    app.hex_data = "a\nb\n".to_string();
    handle_key(&mut app, Key::Down);
    assert_eq!(app.hex_scroll, 0);
    app.tab = Tab::Memory;
    app.show_hex_view = false;
    app.dump_output = (0..30).map(|i| format!("{}\n", i)).collect();
    handle_key(&mut app, Key::PageDown);
    assert_eq!(app.output_scroll, 10);
    handle_key(&mut app, Key::Up);
    assert_eq!(app.output_scroll, 9);
    handle_key(&mut app, Key::PageUp);
    assert_eq!(app.output_scroll, 0);
}

#[test]
fn memory_list_moves_show_the_region() {
    let mut app = app_with_processes();
    app.tab = Tab::Memory;
    app.memory_regions = vec![region(0x1000, 0x2000, Some("/a")), region(0x3000, 0x5000, None), region(0, 0x2000_0000, Some(""))];
    let cmds = handle_key(&mut app, Key::Down);
    assert_eq!(app.memory_scroll, 1);
    assert_eq!(app.status_message.as_deref(), Some("Selected: 0x3000 - 8.0KB - [anon]"));
    assert!(matches!(cmds.as_slice(), [Command::ReadMemory { pid: 100, start: 0x3000, size: 4096 }]));
    // an empty path: nothing shown
    let cmds = handle_key(&mut app, Key::Down);
    assert_eq!(app.memory_scroll, 2);
    assert!(cmds.is_empty());
    // v reads at most 4096 bytes
    let cmds = handle_key(&mut app, Key::Char('v'));
    assert!(matches!(cmds.as_slice(), [Command::ReadMemory { pid: 100, start: 0, size: 4096 }]));
    let cmds = handle_key(&mut app, Key::Enter);
    assert!(matches!(cmds.as_slice(), [Command::ReadMemory { pid: 100, start: 0, size: 4096 }]));
}

#[test]
fn checkpoint_list_moves() {
    let mut app = app_with_processes();
    app.tab = Tab::Checkpoints;
    app.checkpoints = vec![checkpoint("/tmp/ck/one", 5), checkpoint("/tmp/ck/two", 0)];
    assert!(handle_key(&mut app, Key::Down).is_empty());
    assert_eq!(app.checkpoint_scroll, 1);
    assert_eq!(app.status_message.as_deref(), Some("Selected checkpoint: \"two\""));
    // no restore without a process id
    assert!(handle_key(&mut app, Key::Char('u')).is_empty());
    let cmds = handle_key(&mut app, Key::Char('d'));
    assert_eq!(app.status_message.as_deref(), Some("Deleting checkpoint \"/tmp/ck/two\"..."));
    assert!(matches!(cmds.as_slice(), [Command::DeleteCheckpoint { path }] if path == "/tmp/ck/two"));
    handle_key(&mut app, Key::Up);
    let cmds = handle_key(&mut app, Key::Char('u'));
    assert_eq!(app.status_message.as_deref(), Some("Restoring checkpoint to PID 5..."));
    assert!(matches!(cmds.as_slice(), [Command::Restore { pid: 5, path }] if path == "/tmp/ck/one"));
    let cmds = handle_key(&mut app, Key::Char('p'));
    assert_eq!(app.status_message.as_deref(), Some("Parasite restore to PID 5"));
    assert!(matches!(cmds.as_slice(), [Command::Parasite { pid: 5, path }] if path == "/tmp/ck/one"));
    // these keys do nothing on other tabs
    app.tab = Tab::Processes;
    assert!(press(&mut app, "udp").is_empty());
}

#[test]
fn enter_opens_the_memory_map() {
    let mut app = app_with_processes();
    app.show_hex_view = true;
    app.hex_data = "x".to_string();
    app.process_scroll = 2;
    let cmds = handle_key(&mut app, Key::Enter);
    assert_eq!(app.tab, Tab::Memory);
    assert_eq!(app.memory_scroll, 0);
    assert!(!app.show_hex_view);
    assert_eq!(app.hex_data, "");
    assert!(matches!(cmds.as_slice(), [Command::LoadMemoryRegions { pid: 7 }]));
}

#[test]
fn typing_a_process_search() {
    let mut app = app_with_processes();
    app.process_scroll = 1;
    assert!(handle_key(&mut app, Key::Char('/')).is_empty());
    assert!(app.is_searching);
    assert_eq!(app.status_message.as_deref(), Some("Search: "));
    let cmds = press(&mut app, "Ba");
    assert_eq!(app.search_query, "Ba");
    assert_eq!(app.status_message.as_deref(), Some("Search: Ba"));
    assert_eq!(cmds.len(), 2);
    assert!(cmds.iter().all(|c| matches!(c, Command::SearchProcesses)));
    // letters that are commands are typed too
    let cmds = press(&mut app, "q");
    assert_eq!(app.search_query, "Baq");
    assert_eq!(cmds.len(), 1);
    let cmds = handle_key(&mut app, Key::Backspace);
    assert_eq!(app.search_query, "Ba");
    assert!(matches!(cmds.as_slice(), [Command::SearchProcesses]));
    let cmds = handle_key(&mut app, Key::Enter);
    assert!(!app.is_searching);
    assert_eq!(app.saved_search.as_deref(), Some("Ba"));
    assert!(matches!(cmds.as_slice(), [Command::SearchProcesses, Command::ClearStatus]));
}

#[test]
fn leaving_a_search() {
    let mut app = app_with_processes();
    press(&mut app, "/x");
    let cmds = handle_key(&mut app, Key::Esc);
    assert!(!app.is_searching);
    assert_eq!(app.search_query, "");
    assert!(app.saved_search.is_none());
    assert!(matches!(cmds.as_slice(), [Command::RefreshProcesses, Command::ClearStatus]));
    // backspace on an empty search leaves it as well
    app.tab = Tab::Checkpoints;
    app.checkpoint_scroll = 3;
    press(&mut app, "/");
    let cmds = handle_key(&mut app, Key::Backspace);
    assert!(!app.is_searching);
    assert_eq!(app.checkpoint_scroll, 0);
    assert!(matches!(cmds.as_slice(), [Command::RefreshCheckpoints, Command::ClearStatus]));
    // an empty search kept with Enter only clears the status
    press(&mut app, "/");
    assert!(handle_key(&mut app, Key::Enter).is_empty());
    assert!(app.status_message.is_none());
}

#[test]
fn memory_search_needs_a_selected_process() {
    let mut app = app_with_processes();
    app.tab = Tab::Memory;
    press(&mut app, "/");
    let cmds = press(&mut app, "s");
    assert_eq!(app.status_message.as_deref(), Some("Filter memory: s"));
    assert!(matches!(cmds.as_slice(), [Command::SearchMemory { pid: 100 }]));
    app.processes.clear();
    assert!(press(&mut app, "t").is_empty());
}

#[test]
fn hex_search_and_escape() {
    let mut app = app_with_processes();
    app.show_hex_view = true;
    app.focus = Focus::Output;
    press(&mut app, "/");
    assert!(app.is_hex_searching);
    assert_eq!(app.status_message.as_deref(), Some("Hex search: "));
    press(&mut app, "ab c");
    assert_eq!(app.hex_search, "ab c");
    handle_key(&mut app, Key::Backspace);
    assert_eq!(app.status_message.as_deref(), Some("Hex search: ab "));
    handle_key(&mut app, Key::Esc);
    assert!(!app.is_hex_searching);
    assert_eq!(app.hex_search, "");
    assert!(app.status_message.is_none());
    assert!(app.show_hex_view);
    handle_key(&mut app, Key::Esc);
    assert!(!app.show_hex_view);
}

#[test]
fn sort_keys_flip_the_direction() {
    let mut app = app_with_processes();
    handle_key(&mut app, Key::Char('P'));
    assert_eq!(app.sort_by, SortBy::Pid);
    assert!(app.sort_ascending);
    assert_eq!(app.processes.iter().map(|p| p.pid).collect::<Vec<_>>(), vec![0, 7, 100]);
    assert_eq!(app.status_message.as_deref(), Some("Sorted by PID (asc)"));
    handle_key(&mut app, Key::Char('N'));
    assert!(!app.sort_ascending);
    assert_eq!(app.processes.iter().map(|p| p.pid).collect::<Vec<_>>(), vec![7, 0, 100]);
    assert_eq!(app.status_message.as_deref(), Some("Sorted by Name (desc)"));
    handle_key(&mut app, Key::Char('M'));
    assert_eq!(app.processes.iter().map(|p| p.pid).collect::<Vec<_>>(), vec![7, 0, 100]);
    assert_eq!(app.status_message.as_deref(), Some("Sorted by Memory (asc)"));
}

#[test]
fn checkpoint_small_process_at_once() {
    let mut app = app_with_processes();
    app.total_memory_size = 1 << 30;
    let cmds = handle_key(&mut app, Key::Char('c'));
    assert!(matches!(cmds.as_slice(), [Command::CreateCheckpoint { pid: 100, name }] if name == "bash"));
    assert!(!app.show_confirm);
}

#[test]
fn checkpoint_large_process_asks_first() {
    let mut app = app_with_processes();
    app.total_memory_size = 3 * (1 << 30) / 2 + 1;
    assert!(handle_key(&mut app, Key::Char('c')).is_empty());
    assert!(app.show_confirm);
    assert_eq!(app.confirm_message, "Total memory is 1.5 GB. Create checkpoint? [y/n]");
    assert_eq!(app.status_message.as_deref(), Some("Total memory is 1.5 GB. Create checkpoint? [y/n]"));
    assert_eq!(app.pending_hex_load, Some((100, 0)));
    let cmds = handle_key(&mut app, Key::Char('Y'));
    assert!(matches!(cmds.as_slice(), [Command::CreateCheckpoint { pid: 100, name }] if name == "bash"));
    assert!(!app.show_confirm);
    assert_eq!(app.confirm_message, "");
    assert!(app.pending_hex_load.is_none());

    handle_key(&mut app, Key::Char('c'));
    assert!(handle_key(&mut app, Key::Char('n')).is_empty());
    assert!(!app.show_confirm);
    assert_eq!(app.status_message.as_deref(), Some("Checkpoint cancelled"));
}

#[test]
fn confirm_text_matches_float_formatting() {
    for total in [(1u64 << 30) + 1, 1_181_116_006_400, 5_000_000_000, u64::MAX, 2_791_728_742] {
        let mut app = app_with_processes();
        app.total_memory_size = total;
        handle_key(&mut app, Key::Char('c'));
        let expected = format!(
            "Total memory is {:.1} GB. Create checkpoint? [y/n]",
            total as f64 / (1u64 << 30) as f64
        );
        assert_eq!(app.confirm_message, expected);
    }
}

#[test]
fn confirmed_process_that_left_the_list() {
    let mut app = app_with_processes();
    app.total_memory_size = u64::MAX;
    handle_key(&mut app, Key::Char('c'));
    app.processes.remove(0);
    assert!(handle_key(&mut app, Key::Char('y')).is_empty());
    assert!(!app.show_confirm);
}

#[test]
fn inject_and_refresh() {
    let mut app = app_with_processes();
    let cmds = handle_key(&mut app, Key::Char('i'));
    assert_eq!(app.status_message.as_deref(), Some("Injecting shellcode to PID 100"));
    assert!(matches!(cmds.as_slice(), [Command::InjectShellcode { pid: 100 }]));
    app.search_query = "zz".to_string();
    let cmds = handle_key(&mut app, Key::Char('r'));
    assert_eq!(app.search_query, "");
    assert_eq!(app.status_message.as_deref(), Some("Refreshing..."));
    assert!(matches!(
        cmds.as_slice(),
        [Command::RefreshProcesses, Command::RefreshCheckpoints, Command::ClearStatus]
    ));
}

#[test]
fn resolving_a_symbol() {
    let mut app = app_with_processes();
    press(&mut app, "x");
    assert!(app.extended_mode);
    assert_eq!(app.status_message.as_deref(), Some("Extended command (resolve <symbol>): "));
    // a space is no part of a symbol: it moves the focus
    press(&mut app, " ");
    assert_eq!(app.focus, Focus::Output);
    assert_eq!(app.extended_command, "");
    press(&mut app, "mallocc");
    handle_key(&mut app, Key::Backspace);
    assert_eq!(app.extended_command, "malloc");
    assert_eq!(app.status_message.as_deref(), Some("Extended command (resolve <symbol>): malloc"));
    let cmds = handle_key(&mut app, Key::Enter);
    assert!(!app.extended_mode);
    assert_eq!(app.extended_command, "");
    assert!(matches!(cmds.as_slice(), [Command::Resolve { pid: 100, symbol }] if symbol == "malloc"));
    // a blank symbol resolves nothing
    press(&mut app, "x   ");
    assert!(handle_key(&mut app, Key::Enter).is_empty());
    // escape leaves symbol entry
    press(&mut app, "xab");
    handle_key(&mut app, Key::Esc);
    assert!(!app.extended_mode);
    assert!(app.status_message.is_none());
}

#[test]
fn unbound_keys_change_nothing() {
    let mut app = app_with_processes();
    let before_log = app.output_log.clone();
    assert!(handle_key(&mut app, Key::Other).is_empty());
    assert!(handle_key(&mut app, Key::Backspace).is_empty());
    assert!(handle_key(&mut app, Key::Char('z')).is_empty());
    assert_eq!(app.output_log, before_log);
    assert_eq!(app.process_scroll, 0);
}

#[test]
fn cursors_stay_on_the_lists() {
    let mut app = app_with_processes();
    app.memory_regions = vec![region(0, 16, Some("/m"))];
    app.checkpoints = vec![checkpoint("/c/a", 1), checkpoint("/c/b", 2)];
    let keys = [
        Key::Down, Key::End, Key::PageDown, Key::Tab, Key::Down, Key::End, Key::Tab, Key::End,
        Key::PageDown, Key::Down, Key::Char('M'), Key::BackTab, Key::BackTab, Key::Char('N'),
        Key::Char('j'), Key::Char('j'), Key::Char('j'), Key::PageUp, Key::Char('k'),
    ];
    for k in keys {
        handle_key(&mut app, k);
        assert!(app.process_scroll <= app.processes.len().saturating_sub(1));
        assert!(app.memory_scroll <= app.memory_regions.len().saturating_sub(1));
        assert!(app.checkpoint_scroll <= app.checkpoints.len().saturating_sub(1));
        assert_eq!(app.ckptmini_path, "/bin/ckptmini");
        assert_eq!(app.checkpoint_dir, "/tmp/ck");
    }
}

#[test]
fn checkpoint_names_are_shown_as_paths() {
    let mut app = app_with_processes();
    app.tab = Tab::Checkpoints;
    app.checkpoints = vec![checkpoint("/tmp/ck/a", 1), checkpoint("/tmp/ck/it's \"x\"", 2)];
    handle_key(&mut app, Key::Down);
    let name = std::path::Path::new("/tmp/ck/it's \"x\"").file_name().unwrap();
    assert_eq!(app.status_message, Some(format!("Selected checkpoint: {:?}", name)));
    handle_key(&mut app, Key::Char('d'));
    assert_eq!(
        app.status_message,
        Some(format!("Deleting checkpoint {:?}...", std::path::PathBuf::from("/tmp/ck/it's \"x\"")))
    );
}
