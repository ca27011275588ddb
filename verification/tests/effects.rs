use ckptmini_tui::models::checkpoint::{CheckpointDir, CheckpointInfo};
use ckptmini_tui::models::process::{ProcessInfo, ProcessState};
use ckptmini_tui::ui::app::{App, SortBy, Tab};
use ckptmini_tui::ui::command::Command;
use ckptmini_tui::ui::effects::{
    checkpoint_saved, create_checkpoint, delete_finished, hex_dump_loaded, inject_finished,
    load_hex_dump, load_memory_regions, load_process_info, parasite_finished, refresh_checkpoints,
    refresh_processes, resolve_finished, restore_finished,
};
use ckptmini_tui::ui::search::{
    apply_search_filter, filter_checkpoints, filter_memory_regions, filter_processes_by_search,
};

fn process(pid: u32, name: &str, memory_total: u64) -> ProcessInfo {
    ProcessInfo { pid, name: name.to_string(), memory_total, threads: 1, state: ProcessState::Sleeping }
}

fn checkpoint(path: &str) -> CheckpointInfo {
    CheckpointInfo { path: path.to_string(), pid: 1, created: 0, regions: 0, size_bytes: 0, command: String::new() }
}

fn app() -> App {
    App::new("/bin/ckptmini".to_string(), "/tmp/ck".to_string())
}

const DUMP: &str = "PID 100\n\
                    START END PERMS SIZE PATH\n\
                    1000 101000 r-xp 1M /usr/lib/libc.so\n\
                    200000 200100 rw-p 256 [heap]\n\
                    abc000 abd000 rw-p 4K anon map\n";

#[test]
fn fresh_process_listing() {
    let mut a = app();
    a.process_scroll = 5;
    refresh_processes(&mut a, Ok(vec![process(1, "a", 5), process(2, "b", 50), process(3, "c", 10)]));
    assert_eq!(a.process_scroll, 0);
    assert_eq!(a.processes.iter().map(|p| p.pid).collect::<Vec<_>>(), vec![2, 3, 1]);
    a.sort_by = SortBy::Pid;
    a.sort_ascending = true;
    refresh_processes(&mut a, Ok(vec![process(9, "a", 5), process(2, "b", 50)]));
    assert_eq!(a.processes.iter().map(|p| p.pid).collect::<Vec<_>>(), vec![2, 9]);
    refresh_processes(&mut a, Err("permission denied".to_string()));
    assert_eq!(a.processes.len(), 2);
    assert_eq!(a.status_message.as_deref(), Some("Failed to list processes: permission denied"));
    assert!(a.status_is_error);
    assert_eq!(a.output_log.last().unwrap(), "[error] Failed to list processes: permission denied");
}

#[test]
fn fresh_checkpoint_listing() {
    let mut a = app();
    a.checkpoint_scroll = 4;
    refresh_checkpoints(&mut a, vec![checkpoint("/tmp/ck/a"), checkpoint("/tmp/ck/b")]);
    assert_eq!(a.checkpoint_scroll, 0);
    assert_eq!(a.checkpoints.len(), 2);
    assert_eq!(a.checkpoints[1].path, "/tmp/ck/b");
}

#[test]
fn memory_map_loaded() {
    let mut a = app();
    load_memory_regions(&mut a, Ok(DUMP.to_string()));
    assert_eq!(a.memory_regions.len(), 3);
    assert_eq!(a.dump_output, DUMP);
    assert_eq!(a.total_memory_size, 0x100000 + 0x100 + 0x1000);
    assert_eq!(a.status_message.as_deref(), Some("Loaded 3 memory regions (1 MB)"));
    assert_eq!(a.memory_regions[2].path.as_deref(), Some("anon map"));
}

#[test]
fn memory_map_failed() {
    let mut a = app();
    load_memory_regions(&mut a, Ok(DUMP.to_string()));
    load_memory_regions(&mut a, Err("Failed to run ckptmini dump".to_string()));
    assert!(a.memory_regions.is_empty());
    assert_eq!(a.dump_output, "");
    assert_eq!(a.total_memory_size, 0);
    assert_eq!(a.status_message.as_deref(), Some("Failed to load memory: Failed to run ckptmini dump"));
    assert!(a.status_is_error);
}

#[test]
fn hex_view_read_request() {
    let mut a = app();
    assert!(load_hex_dump(&a, 0x1000, 0x2000).is_empty());
    a.processes = vec![process(42, "x", 0)];
    let cmds = load_hex_dump(&a, 0x1000, 0x1010);
    assert!(matches!(cmds.as_slice(), [Command::ReadMemory { pid: 42, start: 0x1000, size: 16 }]));
    let cmds = load_hex_dump(&a, 0, 1 << 20);
    assert!(matches!(cmds.as_slice(), [Command::ReadMemory { pid: 42, start: 0, size: 4096 }]));
}

#[test]
fn hex_view_shown_or_not() {
    let mut a = app();
    let data = "0x1000 41 42 43 44 45 46 47 48 49 4a 4b 4c 4d 4e 4f 50\n";
    hex_dump_loaded(&mut a, 0x1000, 16, Ok(data.to_string()));
    assert!(a.show_hex_view);
    assert_eq!(a.hex_data, "0x1000  41 42 43 44 45 46 47 48  49 4a 4b 4c 4d 4e 4f 50  |ABCDEFGHIJKLMNOP|\n");
    assert_eq!(a.status_message.as_deref(), Some("Hex dump: 0x1000 - 16 bytes"));
    hex_dump_loaded(&mut a, 0x1000, 16, Err("Failed to run ckptmini read".to_string()));
    assert!(!a.show_hex_view);
    assert_eq!(a.status_message.as_deref(), Some("Failed to read memory: Failed to run ckptmini read"));
}

#[test]
fn process_details() {
    let mut a = app();
    load_process_info(&mut a, Ok("PID: 1\nName: init\n".to_string()));
    assert_eq!(a.process_info, "PID: 1\nName: init\n");
    load_process_info(&mut a, Err("Failed to run ckptmini show".to_string()));
    assert_eq!(a.process_info, "Failed to get process info: Failed to run ckptmini show");
    assert!(a.status_message.is_none());
}

#[test]
fn resolve_outcomes() {
    let mut a = app();
    resolve_finished(&mut a, &"malloc".to_string(), Ok("0x7f00123\n".to_string()));
    assert_eq!(a.dump_output, "0x7f00123\n");
    assert_eq!(a.status_message.as_deref(), Some("Resolved malloc to: "));
    resolve_finished(&mut a, &"nope".to_string(), Err("ckptmini resolve failed: not found".to_string()));
    assert_eq!(a.dump_output, "0x7f00123\n");
    assert_eq!(a.status_message.as_deref(), Some("Resolve failed: ckptmini resolve failed: not found"));
    assert!(a.status_is_error);
}

#[test]
fn run_outcomes() {
    let mut a = app();
    restore_finished(&mut a, 12, Ok(String::new()));
    assert_eq!(a.status_message.as_deref(), Some("Restored checkpoint to PID 12"));
    restore_finished(&mut a, 12, Err("ckptmini restore failed: x".to_string()));
    assert_eq!(a.status_message.as_deref(), Some("Restore failed: ckptmini restore failed: x"));
    parasite_finished(&mut a, 3, Ok(String::new()));
    assert_eq!(a.status_message.as_deref(), Some("Parasite restore done for PID 3"));
    parasite_finished(&mut a, 3, Err("e".to_string()));
    assert_eq!(a.status_message.as_deref(), Some("Parasite failed: e"));
    inject_finished(&mut a, 4, Ok("done".to_string()));
    assert_eq!(a.status_message.as_deref(), Some("Shellcode injected to PID 4"));
    assert!(!a.status_is_error);
    inject_finished(&mut a, 4, Err("e".to_string()));
    assert_eq!(a.status_message.as_deref(), Some("Inject failed: e"));
    assert!(a.status_is_error);
    assert_eq!(a.output_log.len(), 6);
}

#[test]
fn delete_outcomes() {
    let mut a = app();
    let cmds = delete_finished(&mut a, Ok(()));
    assert_eq!(a.status_message.as_deref(), Some("Checkpoint deleted"));
    assert!(matches!(cmds.as_slice(), [Command::RefreshCheckpoints]));
    let cmds = delete_finished(&mut a, Err("No such file or directory (os error 2)".to_string()));
    assert!(cmds.is_empty());
    assert_eq!(a.status_message.as_deref(), Some("Delete failed: No such file or directory (os error 2)"));
}

#[test]
fn checkpoint_directory_names() {
    let mut a = app();
    let p = create_checkpoint(&mut a, 42, 1_700_000_000);
    assert_eq!(p, "/tmp/ck/ckpt_42_1700000000");
    assert_eq!(a.status_message.as_deref(), Some("Creating checkpoint for PID 42..."));
    a.checkpoint_dir = "/tmp/ck/".to_string();
    assert_eq!(create_checkpoint(&mut a, 1, 2), "/tmp/ck/ckpt_1_2");
    a.checkpoint_dir = String::new();
    assert_eq!(create_checkpoint(&mut a, 0, 0), "ckpt_0_0");
}

#[test]
fn save_outcomes() {
    let mut a = app();
    let cmds = checkpoint_saved(&mut a, &"/tmp/ck/ckpt_1_2".to_string(), 1, &"bash -l".to_string(), Ok(()));
    assert_eq!(a.status_message.as_deref(), Some("Checkpoint saved to \"/tmp/ck/ckpt_1_2\""));
    match cmds.as_slice() {
        [Command::WriteMeta { path, text }, Command::RefreshCheckpoints] => {
            assert_eq!(path, "/tmp/ck/ckpt_1_2/meta.json");
            assert_eq!(text, "{\n  \"command\": \"bash -l\",\n  \"pid\": 1\n}");
        }
        other => panic!("unexpected commands {:?}", other),
    }
    let cmds = checkpoint_saved(&mut a, &"/tmp/ck/".to_string(), 7, &"x".to_string(), Ok(()));
    assert!(matches!(cmds.as_slice(), [Command::WriteMeta { path, .. }, Command::RefreshCheckpoints] if path == "/tmp/ck/meta.json"));
    let cmds = checkpoint_saved(&mut a, &"/tmp/ck/ckpt_1_2".to_string(), 1, &"bash".to_string(), Err("ckptmini save failed: e".to_string()));
    assert!(cmds.is_empty());
    assert_eq!(a.status_message.as_deref(), Some("Checkpoint failed: ckptmini save failed: e"));
}

#[test]
fn written_metadata_reads_back() {
    let mut a = app();
    let cmds = checkpoint_saved(&mut a, &"/tmp/ck/ckpt_42_9".to_string(), 42, &"sleep \"100\"".to_string(), Ok(()));
    let text = match &cmds[0] {
        Command::WriteMeta { text, .. } => text.clone(),
        other => panic!("unexpected command {:?}", other),
    };
    let d = CheckpointDir {
        path: "/tmp/ck/ckpt_42_9".to_string(),
        is_dir: true,
        has_mem: true,
        mem_entries: None,
        created: Some(9),
        meta: Some(text),
    };
    let c = CheckpointInfo::from_dir(&d).unwrap();
    assert_eq!(c.pid, 42);
    assert_eq!(c.command, "sleep \"100\"");
}

#[test]
fn process_search_results() {
    let mut a = app();
    a.process_scroll = 2;
    a.search_query = "BA".to_string();
    let all = vec![process(1, "bash", 10), process(2, "zsh", 20), process(3, "Bazel", 30), process(4, "x", 5)];
    filter_processes_by_search(&mut a, Ok(all));
    assert_eq!(a.process_scroll, 0);
    assert_eq!(a.processes.iter().map(|p| p.pid).collect::<Vec<_>>(), vec![3, 1]);

    a.search_query = "7".to_string();
    filter_processes_by_search(&mut a, Ok(vec![process(17, "a", 1), process(70, "b", 2), process(8, "c7", 3), process(9, "d", 4)]));
    assert_eq!(a.processes.iter().map(|p| p.pid).collect::<Vec<_>>(), vec![8, 70, 17]);

    filter_processes_by_search(&mut a, Err("denied".to_string()));
    assert_eq!(a.processes.len(), 3);
    a.search_query = String::new();
    filter_processes_by_search(&mut a, Ok(vec![]));
    assert_eq!(a.processes.len(), 3);
}

#[test]
fn memory_search_results() {
    let mut a = app();
    a.memory_scroll = 1;
    a.search_query = "LIB".to_string();
    filter_memory_regions(&mut a, Ok(DUMP.to_string()));
    assert_eq!(a.memory_regions.len(), 1);
    assert_eq!(a.memory_scroll, 0);
    a.search_query = "abc".to_string();
    filter_memory_regions(&mut a, Ok(DUMP.to_string()));
    assert_eq!(a.memory_regions.len(), 1);
    assert_eq!(a.memory_regions[0].start, 0xabc000);
    a.search_query = "RW".to_string();
    filter_memory_regions(&mut a, Ok(DUMP.to_string()));
    assert_eq!(a.memory_regions.len(), 2);
    a.search_query = "x".to_string();
    filter_memory_regions(&mut a, Err("e".to_string()));
    assert_eq!(a.memory_regions.len(), 2);
}

#[test]
fn checkpoint_search_results() {
    let mut a = app();
    a.search_query = "ONE".to_string();
    filter_checkpoints(&mut a, vec![checkpoint("/tmp/ck/one"), checkpoint("/tmp/one/two"), checkpoint("/tmp/ck/Phone"), checkpoint("/")]);
    assert_eq!(a.checkpoints.iter().map(|c| c.path.as_str()).collect::<Vec<_>>(), vec!["/tmp/ck/one", "/tmp/ck/Phone"]);
}

#[test]
fn search_work_per_tab() {
    let mut a = app();
    assert!(apply_search_filter(&a).is_empty());
    a.search_query = "q".to_string();
    assert!(matches!(apply_search_filter(&a).as_slice(), [Command::SearchProcesses]));
    a.tab = Tab::Memory;
    assert!(apply_search_filter(&a).is_empty());
    a.processes = vec![process(5, "p", 0)];
    assert!(matches!(apply_search_filter(&a).as_slice(), [Command::SearchMemory { pid: 5 }]));
    a.tab = Tab::Checkpoints;
    assert!(matches!(apply_search_filter(&a).as_slice(), [Command::SearchCheckpoints]));
}

#[test]
fn checkpoint_directories_never_collide() {
    let mut a = app();
    let cases = [(1u32, 23u64), (12, 3), (123, 0), (1, 230), (0, 1123)];
    let paths: Vec<String> = cases.iter().map(|&(p, t)| create_checkpoint(&mut a, p, t)).collect();
    for i in 0..paths.len() {
        for j in 0..paths.len() {
            assert_eq!(paths[i] == paths[j], i == j, "{} {}", paths[i], paths[j]);
        }
    }
}

#[test]
fn saved_path_is_shown_as_a_path() {
    let mut a = app();
    let path = "/tmp/it's/ckpt_1_2".to_string();
    checkpoint_saved(&mut a, &path, 1, &"p".to_string(), Ok(()));
    let expected = format!("Checkpoint saved to {:?}", std::path::Path::new(&path));
    assert_eq!(a.status_message.as_deref(), Some(expected.as_str()));
}
