use ckptmini_tui::models::checkpoint::{CheckpointInfo, MemEntry};
use ckptmini_tui::models::memory::{MemoryRegion, Permissions};
use ckptmini_tui::models::process::{ProcessInfo, ProcessState};
use ckptmini_tui::ui::app::{App, Focus, Tab};
use ckptmini_tui::ui::view::{
    align_left, align_right, checkpoint_cells, header_info, input_panel, memory_cells,
    memory_list_title, output_lines, output_title, process_cells, shortened, state_name, status_bar,
    visible_rows, CheckpointFiles, LineStyle, MessageKind,
};

fn process(pid: u32, name: &str) -> ProcessInfo {
    ProcessInfo { pid, name: name.to_string(), memory_total: 1536, threads: 12, state: ProcessState::Sleeping }
}

fn no_files() -> CheckpointFiles {
    CheckpointFiles { regs_saved: false, fd_count: None, mem_files: None }
}

fn texts(app: &App, height: usize, files: &CheckpointFiles) -> Vec<(String, LineStyle)> {
    output_lines(app, height, 1000, files).into_iter().map(|l| (l.text, l.style)).collect()
}

#[test]
fn shortening_long_texts() {
    assert_eq!(shortened("short", 24, 21), "short");
    assert_eq!(shortened("abcdefghijklmnopqrstuvwx", 24, 21), "abcdefghijklmnopqrstuvwx");
    assert_eq!(shortened("abcdefghijklmnopqrstuvwxyz", 24, 21), "abcdefghijklmnopqrstu...");
    let accents = "\u{e9}".repeat(13);
    assert_eq!(shortened(&accents, 24, 20), format!("{}...", "\u{e9}".repeat(10)));
    assert_eq!(shortened("", 0, 0), "");
}

#[test]
fn alignment_counts_characters() {
    assert_eq!(align_right("42", 5), format!("{:>5}", "42"));
    assert_eq!(align_left("ab", 4), format!("{:<4}", "ab"));
    assert_eq!(align_right("\u{e9}t\u{e9}", 5), format!("{:>5}", "\u{e9}t\u{e9}"));
    assert_eq!(align_right("toolong", 3), "toolong");
}

#[test]
fn process_row() {
    let p = process(42, "/usr/bin/some-very-long-command --flag");
    let cells = process_cells(&p, true);
    assert_eq!(
        cells,
        vec![
            " \u{25b6}".to_string(),
            format!("{:>5}", 42),
            format!("{:<26}", "/usr/bin/some-very-lo..."),
            format!("{:>10}", "1.5KB"),
            format!("{:>8}", 12),
            "Sleeping".to_string(),
        ]
    );
    assert_eq!(process_cells(&process(7, "vim"), false)[0], "  ");
    assert_eq!(process_cells(&process(7, "vim"), false)[2], format!("{:<26}", "vim"));
    assert_eq!(state_name(ProcessState::Zombie), "Zombie");
    assert_eq!(state_name(ProcessState::Unknown), "Unknown");
}

#[test]
fn memory_row() {
    let r = MemoryRegion {
        start: 0x7f00_0000_1000,
        end: 0x7f00_0000_3000,
        perms: Permissions { read: true, write: false, execute: true },
        offset: 0,
        device: String::new(),
        inode: 0,
        path: Some("/usr/lib/x86_64-linux-gnu/libc.so.6".to_string()),
    };
    assert_eq!(
        memory_cells(&r, false),
        vec![
            "  ".to_string(),
            format!("0x{:016x}", 0x7f00_0000_1000u64),
            format!("0x{:016x}", 0x7f00_0000_3000u64),
            "r-x".to_string(),
            format!("{:>8}", "8.0KB"),
            "/usr/lib/x86_64-l...".to_string(),
        ]
    );
    let anon = MemoryRegion { path: None, ..r };
    assert_eq!(memory_cells(&anon, true)[5], "[anon]");
}

#[test]
fn checkpoint_row() {
    let c = CheckpointInfo {
        path: "/tmp/ck/ckpt_42_100".to_string(),
        pid: 42,
        created: 100,
        regions: 7,
        size_bytes: 3 << 20,
        command: "sleep".to_string(),
    };
    assert_eq!(
        checkpoint_cells(&c, true, 100 + 7200),
        vec![
            " \u{25b6}".to_string(),
            format!("{:<24}", "ckpt_42_100"),
            format!("{:>5}", 42),
            format!("{:>12}", "2h ago"),
            format!("{:>6}", 7),
            "3.0MB".to_string(),
        ]
    );
}

#[test]
fn titles_and_header() {
    let mut app = App::new(String::new(), String::new());
    assert_eq!(header_info(&app), " \u{25cb} No process selected ");
    assert_eq!(memory_list_title(&app), " \u{232c} Memory Map ");
    app.processes = vec![process(9, "bash")];
    assert_eq!(header_info(&app), " \u{25cf} PID: 9  bash");
    assert_eq!(memory_list_title(&app), " \u{232c} Memory: bash (9) ");
    assert_eq!(output_title(&app), " \u{25c8} Process Info ");
    app.tab = Tab::Memory;
    assert_eq!(output_title(&app), " \u{25c8} Memory Map ");
    app.tab = Tab::Checkpoints;
    assert_eq!(output_title(&app), " \u{25c8} Checkpoint Info ");
    app.show_hex_view = true;
    assert_eq!(output_title(&app), " \u{25c8} Hex Dump ");
    app.is_hex_searching = true;
    app.hex_search = "ff".to_string();
    assert_eq!(output_title(&app), " \u{25c8} Hex Dump [ff] ");
}

#[test]
fn status_bar_parts() {
    let mut app = App::new(String::new(), String::new());
    let bar = status_bar(&app);
    assert_eq!(bar.left, " \u{2318} ckptmini \u{25cb}  PID: None ");
    assert_eq!(bar.center, " [LIST] ");
    assert_eq!(bar.kind, MessageKind::Mode);
    assert_eq!(bar.help, " ?:help  q:quit  Tab:switch  Space:focus ");
    app.processes = vec![process(31, "x")];
    app.focus = Focus::Output;
    app.show_help = true;
    let bar = status_bar(&app);
    assert_eq!(bar.left, " \u{2318} ckptmini \u{25cf}  PID: 31 ");
    assert_eq!(bar.center, " [VIEW] ");
    assert_eq!(bar.help, " Press any key ");
    app.set_status("ok".to_string());
    assert_eq!(status_bar(&app).center, " ok ");
    assert_eq!(status_bar(&app).kind, MessageKind::Warning);
    app.set_error("bad".to_string());
    assert_eq!(status_bar(&app).kind, MessageKind::Error);
}

#[test]
fn input_panel_while_typing() {
    let mut app = App::new(String::new(), String::new());
    assert!(input_panel(&app).is_none());
    app.is_searching = true;
    app.search_query = "ba".to_string();
    assert_eq!(input_panel(&app), Some((" Input ".to_string(), " Search \u{203a} ba".to_string())));
    app.is_hex_searching = true;
    app.hex_search = "41".to_string();
    assert_eq!(input_panel(&app), Some((" Hex Search ".to_string(), " Search \u{203a} 41".to_string())));
    app.is_searching = false;
    app.is_hex_searching = false;
    app.input_mode = true;
    app.input_buffer = "typed".to_string();
    assert_eq!(input_panel(&app), Some((" Input ".to_string(), "typed".to_string())));
}

#[test]
fn output_panel_for_processes() {
    let mut app = App::new(String::new(), String::new());
    assert_eq!(texts(&app, 10, &no_files()), vec![(" \u{25cb} No process selected".to_string(), LineStyle::Muted)]);
    app.processes = vec![process(5, "init")];
    assert_eq!(
        texts(&app, 10, &no_files()),
        vec![
            (" \u{25cf} PID: 5".to_string(), LineStyle::Title),
            ("   Name: init".to_string(), LineStyle::Text),
            ("   Memory: 1.5KB".to_string(), LineStyle::Text),
            ("   Threads: 12".to_string(), LineStyle::Text),
            (String::new(), LineStyle::Plain),
            (" Press Enter to view memory map".to_string(), LineStyle::Muted),
            (" Press c to create checkpoint".to_string(), LineStyle::Muted),
        ]
    );
    app.process_info = "Process 5\n  maps: 3\nend\n  x\n".to_string();
    app.process_info_scroll = 1;
    assert_eq!(
        texts(&app, 2, &no_files()),
        vec![("  maps: 3".to_string(), LineStyle::Data), ("end".to_string(), LineStyle::Text)]
    );
    app.process_info_scroll = 10;
    assert!(texts(&app, 2, &no_files()).is_empty());
}

#[test]
fn output_panel_for_memory_and_hex() {
    let mut app = App::new(String::new(), String::new());
    app.tab = Tab::Memory;
    assert_eq!(
        texts(&app, 5, &no_files()),
        vec![(" Select a memory region to view details".to_string(), LineStyle::Plain)]
    );
    app.dump_output = "a\n  b\nc".to_string();
    app.output_scroll = 1;
    assert_eq!(
        texts(&app, 5, &no_files()),
        vec![("  b".to_string(), LineStyle::Text), ("c".to_string(), LineStyle::Text)]
    );
    app.show_hex_view = true;
    app.hex_data = "0x0  41 42  |AB|\n0x10  43 44  |CD|\n0x20  45 46  |EF|\n".to_string();
    app.hex_search = "CD".to_string();
    app.hex_scroll = 99;
    assert_eq!(texts(&app, 5, &no_files()), vec![("0x20  45 46  |EF|".to_string(), LineStyle::Data)]);
    app.hex_scroll = 0;
    assert_eq!(
        texts(&app, 2, &no_files()),
        vec![
            ("0x0  41 42  |AB|".to_string(), LineStyle::Data),
            ("0x10  43 44  |CD|".to_string(), LineStyle::Found),
        ]
    );
}

#[test]
fn output_panel_for_checkpoints() {
    let mut app = App::new(String::new(), String::new());
    app.tab = Tab::Checkpoints;
    assert_eq!(texts(&app, 5, &no_files()), vec![(" \u{25cb} No checkpoint selected".to_string(), LineStyle::Muted)]);
    app.checkpoints = vec![CheckpointInfo {
        path: "/tmp/ck/ckpt_1_2".to_string(),
        pid: 1,
        created: 940,
        regions: 2,
        size_bytes: 2048,
        command: "init".to_string(),
    }];
    let files = CheckpointFiles {
        regs_saved: true,
        fd_count: Some(3),
        mem_files: Some(vec![
            MemEntry { name: "0.bin".to_string(), len: Some(1024) },
            MemEntry { name: "gone".to_string(), len: None },
            MemEntry { name: "1.bin".to_string(), len: Some(1024) },
        ]),
    };
    let expected: Vec<(String, LineStyle)> = vec![
        (" \u{25cf} Checkpoint: \"ckpt_1_2\"".to_string(), LineStyle::Title),
        (String::new(), LineStyle::Plain),
        (" Details".to_string(), LineStyle::Heading),
        ("   Original PID: 1".to_string(), LineStyle::Text),
        ("   Command: init".to_string(), LineStyle::Text),
        ("   Memory Regions: 2".to_string(), LineStyle::Text),
        ("   Total Size: 2.0KB".to_string(), LineStyle::Text),
        ("   Created: 1m ago".to_string(), LineStyle::Text),
        ("   Registers: \u{2713} saved".to_string(), LineStyle::Saved),
        ("   File Descriptors: 3 saved".to_string(), LineStyle::Saved),
        (String::new(), LineStyle::Plain),
        (" Files".to_string(), LineStyle::Heading),
        ("   0.bin (1.0KB)".to_string(), LineStyle::Text),
        ("   1.bin (1.0KB)".to_string(), LineStyle::Text),
        ("   Total: 2.0KB".to_string(), LineStyle::Total),
        (String::new(), LineStyle::Plain),
        (" Actions".to_string(), LineStyle::Heading),
        ("   u - Restore to original PID".to_string(), LineStyle::Muted),
        ("   d - Delete checkpoint".to_string(), LineStyle::Muted),
    ];
    assert_eq!(texts(&app, 5, &files), expected);
    let bare = texts(&app, 5, &no_files());
    assert_eq!(bare.len(), 14);
    assert_eq!(bare[8], (String::new(), LineStyle::Plain));
    assert_eq!(bare[9], (" Files".to_string(), LineStyle::Heading));
    assert_eq!(bare[10], (String::new(), LineStyle::Plain));
}

#[test]
fn checkpoint_title_shows_the_name_as_a_path() {
    let mut app = App::new(String::new(), String::new());
    app.tab = Tab::Checkpoints;
    app.checkpoints = vec![CheckpointInfo {
        path: "/tmp/ck/it's".to_string(),
        pid: 1,
        created: 0,
        regions: 0,
        size_bytes: 0,
        command: String::new(),
    }];
    let first = texts(&app, 5, &no_files())[0].0.clone();
    let name = std::path::Path::new("/tmp/ck/it's").file_name().unwrap();
    assert_eq!(first, format!(" \u{25cf} Checkpoint: {:?}", name));
}

#[test]
fn rows_that_fit_in_a_list() {
    assert_eq!(visible_rows(5, 1, 5, Focus::List), vec![(1, true), (2, false), (3, false)]);
    assert_eq!(visible_rows(5, 3, 10, Focus::Output), vec![(3, false), (4, false)]);
    assert_eq!(visible_rows(5, 9, 10, Focus::List), vec![(4, true)]);
    assert!(visible_rows(0, 0, 10, Focus::List).is_empty());
    assert!(visible_rows(5, 0, 2, Focus::List).is_empty());
    assert!(visible_rows(5, 0, 1, Focus::List).is_empty());
    for len in 0..6usize {
        for scroll in 0..8usize {
            for h in 0..9usize {
                let first = scroll.min(len.saturating_sub(1));
                let expected: Vec<(usize, bool)> = (0..len)
                    .skip(first)
                    .take(h.saturating_sub(2))
                    .map(|i| (i, i == first))
                    .collect();
                assert_eq!(visible_rows(len, scroll, h, Focus::List), expected);
            }
        }
    }
}
