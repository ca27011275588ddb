use ckptmini_tui::models::checkpoint::CheckpointInfo;
use ckptmini_tui::models::memory::{MemoryRegion, Permissions};
use ckptmini_tui::models::process::{ProcessInfo, ProcessState};
use ckptmini_tui::ui::app::{App, Focus, SortBy, Tab};

fn process(pid: u32, name: &str, memory_total: u64) -> ProcessInfo {
    ProcessInfo { pid, name: name.to_string(), memory_total, threads: 1, state: ProcessState::Running }
}

#[test]
fn new_app_starts_on_the_process_list() {
    let app = App::new("/bin/ckptmini".to_string(), "/tmp/checkpoints".to_string());
    assert_eq!(app.tab, Tab::Processes);
    assert_eq!(app.focus, Focus::List);
    assert_eq!(app.sort_by, SortBy::Memory);
    assert!(!app.sort_ascending);
    assert!(app.processes.is_empty() && app.memory_regions.is_empty() && app.checkpoints.is_empty());
    assert_eq!((app.process_scroll, app.memory_scroll, app.checkpoint_scroll), (0, 0, 0));
    assert!(!app.show_help && !app.is_searching && !app.show_hex_view && !app.is_hex_searching);
    assert!(app.status_message.is_none() && !app.status_is_error);
    assert_eq!(app.ckptmini_path, "/bin/ckptmini");
    assert_eq!(app.checkpoint_dir, "/tmp/checkpoints");
    assert!(app.output_log.is_empty());
    assert!(app.selected_process().is_none());
    assert!(app.selected_memory_region().is_none());
    assert!(app.selected_checkpoint().is_none());
}

#[test]
fn headers_and_tab_numbers() {
    let h = Tab::get_headers();
    assert_eq!(h.len(), 3);
    assert_eq!(h, ["Processes", "Memory", "Checkpoints"]);
    assert_eq!(Tab::from(0usize), Tab::Processes);
    assert_eq!(Tab::from(1usize), Tab::Memory);
    assert_eq!(Tab::from(2usize), Tab::Checkpoints);
    assert_eq!(Tab::from(3usize), Tab::Processes);
    assert_eq!(Tab::from(usize::MAX), Tab::Processes);
}

#[test]
fn selections_follow_the_cursors() {
    let mut app = App::new(String::new(), String::new());
    app.processes = vec![process(1, "a", 0), process(2, "b", 0)];
    app.process_scroll = 1;
    assert_eq!(app.selected_process().unwrap().pid, 2);
    app.process_scroll = 2;
    assert!(app.selected_process().is_none());
    app.memory_regions = vec![MemoryRegion {
        start: 1,
        end: 2,
        perms: Permissions { read: true, write: true, execute: true },
        offset: 0,
        device: String::new(),
        inode: 0,
        path: None,
    }];
    assert_eq!(app.selected_memory_region().unwrap().start, 1);
    app.checkpoints = vec![CheckpointInfo {
        path: "/c/x".to_string(),
        pid: 3,
        created: 0,
        regions: 0,
        size_bytes: 0,
        command: String::new(),
    }];
    app.checkpoint_scroll = 0;
    assert_eq!(app.selected_checkpoint().unwrap().pid, 3);
}

#[test]
fn log_keeps_the_last_five_hundred_lines() {
    let mut app = App::new(String::new(), String::new());
    for i in 0..510 {
        app.add_output(format!("line {}", i));
        assert!(app.output_log.len() <= 500);
    }
    assert_eq!(app.output_log.len(), 500);
    assert_eq!(app.output_log[0], "line 10");
    assert_eq!(app.output_log[499], "line 509");
}

#[test]
fn status_and_error_messages() {
    let mut app = App::new(String::new(), String::new());
    app.set_status("hello".to_string());
    assert_eq!(app.status_message.as_deref(), Some("hello"));
    assert!(!app.status_is_error);
    app.set_error("bad".to_string());
    assert_eq!(app.status_message.as_deref(), Some("bad"));
    assert!(app.status_is_error);
    assert_eq!(app.output_log, vec!["[status] hello", "[error] bad"]);
    app.clear_status();
    assert!(app.status_message.is_none());
    assert!(!app.status_is_error);
    assert_eq!(app.output_log.len(), 2);
}

#[test]
fn tabs_cycle_both_ways() {
    let mut app = App::new(String::new(), String::new());
    app.next_tab();
    assert_eq!(app.tab, Tab::Memory);
    app.next_tab();
    assert_eq!(app.tab, Tab::Checkpoints);
    app.next_tab();
    assert_eq!(app.tab, Tab::Processes);
    app.prev_tab();
    assert_eq!(app.tab, Tab::Checkpoints);
    app.prev_tab();
    assert_eq!(app.tab, Tab::Memory);
    app.prev_tab();
    assert_eq!(app.tab, Tab::Processes);
    assert_eq!(
        app.output_log,
        vec![
            "[mode] Switched to Memory",
            "[mode] Switched to Checkpoints",
            "[mode] Switched to Processes",
            "[mode] Switched to Checkpoints",
            "[mode] Switched to Memory",
            "[mode] Switched to Processes",
        ]
    );
}

#[test]
fn next_then_previous_tab_returns() {
    for start in [Tab::Processes, Tab::Memory, Tab::Checkpoints] {
        let mut app = App::new(String::new(), String::new());
        app.tab = start;
        app.next_tab();
        app.prev_tab();
        assert_eq!(app.tab, start);
    }
}

#[test]
fn sorting_the_list() {
    let mut app = App::new(String::new(), String::new());
    app.processes = vec![process(5, "b", 10), process(3, "A", 30), process(9, "c", 20)];
    app.sort_processes();
    assert_eq!(app.processes.iter().map(|p| p.pid).collect::<Vec<_>>(), vec![3, 9, 5]);
    app.sort_by = SortBy::Pid;
    app.sort_ascending = true;
    app.sort_processes();
    assert_eq!(app.processes.iter().map(|p| p.pid).collect::<Vec<_>>(), vec![3, 5, 9]);
    app.sort_by = SortBy::Name;
    app.sort_ascending = false;
    app.sort_processes();
    assert_eq!(app.processes.iter().map(|p| p.pid).collect::<Vec<_>>(), vec![9, 5, 3]);
}

#[test]
fn kept_search() {
    let mut app = App::new(String::new(), String::new());
    app.search_query = "bash".to_string();
    app.save_current_search();
    assert_eq!(app.saved_search.as_deref(), Some("bash"));
    app.clear_saved_search();
    assert!(app.saved_search.is_none());
}

#[test]
fn sorting_twice_changes_nothing() {
    for (by, asc) in [(SortBy::Memory, false), (SortBy::Pid, true), (SortBy::Name, false), (SortBy::Name, true)] {
        let mut app = App::new(String::new(), String::new());
        app.processes = vec![
            process(5, "b", 10),
            process(3, "A", 10),
            process(9, "c", 20),
            process(4, "a", 30),
            process(1, "B", 20),
        ];
        app.sort_by = by;
        app.sort_ascending = asc;
        app.sort_processes();
        let once: Vec<u32> = app.processes.iter().map(|p| p.pid).collect();
        app.sort_processes();
        let twice: Vec<u32> = app.processes.iter().map(|p| p.pid).collect();
        assert_eq!(once, twice);
    }
}
