//! The application state and its basic operations.
use vstd::prelude::*;
use vstd::std_specs::convert::FromSpecImpl;
use crate::models::checkpoint::{checkpoint_views, CheckpointInfo, CheckpointView};
use crate::models::memory::{MemoryRegion, RegionView};
use crate::models::process::{process_views, sort_processes_by, sorted_views, ProcessInfo, ProcessView};
use crate::text::string_views;
use crate::wrapper::parser::region_views;

verus! {

/// Which panel has the keyboard focus.
#[derive(Debug, Clone, Copy, PartialEq, Eq, Structural)]
pub enum Focus {
    List,
    Output,
}

/// The field that the process list is ordered by.
#[derive(Debug, Clone, Copy, PartialEq, Eq, Structural)]
pub enum SortBy {
    Memory,
    Pid,
    Name,
}

/// The three tabs of the interface.
#[derive(Debug, Clone, Copy, PartialEq, Eq, Structural)]
pub enum Tab {
    Processes,
    Memory,
    Checkpoints,
}

/// The tab at a header position: 0, 1 and 2 name the tabs in header order, anything else the
/// process tab.
pub open spec fn tab_at(v: usize) -> Tab {
    if v == 1 {
        Tab::Memory
    } else if v == 2 {
        Tab::Checkpoints
    } else {
        Tab::Processes
    }
}

impl Tab {
    /// The tab titles, in header order.
    pub fn get_headers() -> (r: [&'static str; 3])
        ensures
            r[0]@ == "Processes"@,
            r[1]@ == "Memory"@,
            r[2]@ == "Checkpoints"@,
    {
        ["Processes", "Memory", "Checkpoints"]
    }
}

impl From<usize> for Tab {
    fn from(v: usize) -> (r: Self) {
        if v == 1 {
            Tab::Memory
        } else if v == 2 {
            Tab::Checkpoints
        } else {
            Tab::Processes
        }
    }
}

impl FromSpecImpl<usize> for Tab {
    open spec fn obeys_from_spec() -> bool {
        true
    }

    open spec fn from_spec(v: usize) -> Tab {
        tab_at(v)
    }
}

/// The tab after `t`, wrapping around.
pub open spec fn tab_after(t: Tab) -> Tab {
    match t {
        Tab::Processes => Tab::Memory,
        Tab::Memory => Tab::Checkpoints,
        Tab::Checkpoints => Tab::Processes,
    }
}

/// The tab before `t`, wrapping around.
pub open spec fn tab_before(t: Tab) -> Tab {
    match t {
        Tab::Processes => Tab::Checkpoints,
        Tab::Memory => Tab::Processes,
        Tab::Checkpoints => Tab::Memory,
    }
}

/// A tab's name as `{:?}` prints it.
pub open spec fn tab_name(t: Tab) -> Seq<char> {
    match t {
        Tab::Processes => "Processes"@,
        Tab::Memory => "Memory"@,
        Tab::Checkpoints => "Checkpoints"@,
    }
}

/// The abstract value of the application state: every field, strings and lists by their views.
#[verifier::ext_equal]
pub struct AppView {
    pub tab: Tab,
    pub focus: Focus,
    pub processes: Seq<ProcessView>,
    pub process_scroll: usize,
    pub memory_regions: Seq<RegionView>,
    pub memory_scroll: usize,
    pub checkpoints: Seq<CheckpointView>,
    pub checkpoint_scroll: usize,
    pub show_help: bool,
    pub status_message: Option<Seq<char>>,
    pub status_is_error: bool,
    pub ckptmini_path: Seq<char>,
    pub checkpoint_dir: Seq<char>,
    pub sort_by: SortBy,
    pub sort_ascending: bool,
    pub search_query: Seq<char>,
    pub is_searching: bool,
    pub show_hex_view: bool,
    pub hex_data: Seq<char>,
    pub hex_scroll: usize,
    pub hex_search: Seq<char>,
    pub is_hex_searching: bool,
    pub dump_output: Seq<char>,
    pub output_scroll: usize,
    pub process_info: Seq<char>,
    pub output_log: Seq<Seq<char>>,
    pub input_mode: bool,
    pub input_buffer: Seq<char>,
    pub process_info_scroll: usize,
    pub total_memory_size: u64,
    pub show_confirm: bool,
    pub confirm_message: Seq<char>,
    pub pending_hex_load: Option<(u64, u64)>,
    pub extended_mode: bool,
    pub extended_command: Seq<char>,
    pub saved_search: Option<Seq<char>>,
}

/// The whole state of the interface: the three lists and their selections, the panels and
/// their scroll positions, the status line, the search and command inputs, and the log.
pub struct App {
    pub tab: Tab,
    pub focus: Focus,
    pub processes: Vec<ProcessInfo>,
    pub process_scroll: usize,
    pub memory_regions: Vec<MemoryRegion>,
    pub memory_scroll: usize,
    pub checkpoints: Vec<CheckpointInfo>,
    pub checkpoint_scroll: usize,
    pub show_help: bool,
    pub status_message: Option<String>,
    pub status_is_error: bool,
    pub ckptmini_path: String,
    pub checkpoint_dir: String,
    pub sort_by: SortBy,
    pub sort_ascending: bool,
    pub search_query: String,
    pub is_searching: bool,
    pub show_hex_view: bool,
    pub hex_data: String,
    pub hex_scroll: usize,
    pub hex_search: String,
    pub is_hex_searching: bool,
    pub dump_output: String,
    pub output_scroll: usize,
    pub process_info: String,
    pub output_log: Vec<String>,
    pub input_mode: bool,
    pub input_buffer: String,
    /// Scroll position of the process details panel.
    pub process_info_scroll: usize,
    /// Sum of the sizes of the loaded memory regions, modulo 2^64.
    pub total_memory_size: u64,
    /// Whether a yes/no question about creating a checkpoint is open.
    pub show_confirm: bool,
    pub confirm_message: String,
    /// The process id (and a zero) a confirmed checkpoint is for.
    pub pending_hex_load: Option<(u64, u64)>,
    /// Whether a symbol to resolve is being typed.
    pub extended_mode: bool,
    pub extended_command: String,
    /// The last search that was kept.
    pub saved_search: Option<String>,
}

/// The characters of an optional string.
pub open spec fn opt_chars(o: Option<String>) -> Option<Seq<char>> {
    match o {
        Some(s) => Some(s@),
        None => None,
    }
}

impl View for App {
    type V = AppView;

    open spec fn view(&self) -> AppView {
        AppView {
            tab: self.tab,
            focus: self.focus,
            processes: process_views(self.processes@),
            process_scroll: self.process_scroll,
            memory_regions: region_views(self.memory_regions@),
            memory_scroll: self.memory_scroll,
            checkpoints: checkpoint_views(self.checkpoints@),
            checkpoint_scroll: self.checkpoint_scroll,
            show_help: self.show_help,
            status_message: opt_chars(self.status_message),
            status_is_error: self.status_is_error,
            ckptmini_path: self.ckptmini_path@,
            checkpoint_dir: self.checkpoint_dir@,
            sort_by: self.sort_by,
            sort_ascending: self.sort_ascending,
            search_query: self.search_query@,
            is_searching: self.is_searching,
            show_hex_view: self.show_hex_view,
            hex_data: self.hex_data@,
            hex_scroll: self.hex_scroll,
            hex_search: self.hex_search@,
            is_hex_searching: self.is_hex_searching,
            dump_output: self.dump_output@,
            output_scroll: self.output_scroll,
            process_info: self.process_info@,
            output_log: string_views(self.output_log@),
            input_mode: self.input_mode,
            input_buffer: self.input_buffer@,
            process_info_scroll: self.process_info_scroll,
            total_memory_size: self.total_memory_size,
            show_confirm: self.show_confirm,
            confirm_message: self.confirm_message@,
            pending_hex_load: self.pending_hex_load,
            extended_mode: self.extended_mode,
            extended_command: self.extended_command@,
            saved_search: opt_chars(self.saved_search),
        }
    }
}

/// How many lines the output log keeps.
pub open spec fn log_cap() -> nat {
    500
}

/// The log with its oldest lines dropped until at most `log_cap()` remain.
pub open spec fn capped(log: Seq<Seq<char>>) -> Seq<Seq<char>> {
    if log.len() > log_cap() {
        log.skip(log.len() - log_cap())
    } else {
        log
    }
}

/// The state after a line is added to the log.
pub open spec fn logged(v: AppView, line: Seq<char>) -> AppView {
    AppView { output_log: capped(v.output_log.push(line)), ..v }
}

/// The state after a status message is shown: the message, not an error, logged with a
/// `"[status] "` prefix.
pub open spec fn with_status(v: AppView, msg: Seq<char>) -> AppView {
    logged(AppView { status_message: Some(msg), status_is_error: false, ..v }, "[status] "@ + msg)
}

/// The state after an error message is shown: the message, marked an error, logged with an
/// `"[error] "` prefix.
pub open spec fn with_error(v: AppView, msg: Seq<char>) -> AppView {
    logged(AppView { status_message: Some(msg), status_is_error: true, ..v }, "[error] "@ + msg)
}

/// The state with no status message.
pub open spec fn without_status(v: AppView) -> AppView {
    AppView { status_message: None, status_is_error: false, ..v }
}

/// The state after a switch to tab `t`, logged as `"[mode] Switched to <tab>"`.
pub open spec fn switched_to(v: AppView, t: Tab) -> AppView {
    logged(AppView { tab: t, ..v }, "[mode] Switched to "@ + tab_name(t))
}

/// The state with the process list ordered by the chosen field and direction.
pub open spec fn sorted_state(v: AppView) -> AppView {
    AppView { processes: sorted_views(v.processes, v.sort_by, v.sort_ascending), ..v }
}

/// The state with the kept search replaced.
pub open spec fn with_saved_search(v: AppView, s: Option<Seq<char>>) -> AppView {
    AppView { saved_search: s, ..v }
}

/// The selected process: the one at the process scroll position, if there is one.
pub open spec fn selected_proc(v: AppView) -> Option<ProcessView> {
    if v.process_scroll < v.processes.len() {
        Some(v.processes[v.process_scroll as int])
    } else {
        None
    }
}

/// The selected memory region, if there is one.
pub open spec fn selected_region(v: AppView) -> Option<RegionView> {
    if v.memory_scroll < v.memory_regions.len() {
        Some(v.memory_regions[v.memory_scroll as int])
    } else {
        None
    }
}

/// The selected checkpoint, if there is one.
pub open spec fn selected_ckpt(v: AppView) -> Option<CheckpointView> {
    if v.checkpoint_scroll < v.checkpoints.len() {
        Some(v.checkpoints[v.checkpoint_scroll as int])
    } else {
        None
    }
}

/// The state in which the interface starts for the tool at `ckptmini_path` and checkpoints
/// under `checkpoint_dir`: the process tab, list focus, empty lists and inputs, no status,
/// ordering by memory, descending.
pub open spec fn initial_view(ckptmini_path: Seq<char>, checkpoint_dir: Seq<char>) -> AppView {
    AppView {
        tab: Tab::Processes,
        focus: Focus::List,
        processes: seq![],
        process_scroll: 0,
        memory_regions: seq![],
        memory_scroll: 0,
        checkpoints: seq![],
        checkpoint_scroll: 0,
        show_help: false,
        status_message: None,
        status_is_error: false,
        ckptmini_path: ckptmini_path,
        checkpoint_dir: checkpoint_dir,
        sort_by: SortBy::Memory,
        sort_ascending: false,
        search_query: seq![],
        is_searching: false,
        show_hex_view: false,
        hex_data: seq![],
        hex_scroll: 0,
        hex_search: seq![],
        is_hex_searching: false,
        dump_output: seq![],
        output_scroll: 0,
        process_info: seq![],
        output_log: seq![],
        input_mode: false,
        input_buffer: seq![],
        process_info_scroll: 0,
        total_memory_size: 0,
        show_confirm: false,
        confirm_message: seq![],
        pending_hex_load: None,
        extended_mode: false,
        extended_command: seq![],
        saved_search: None,
    }
}

impl App {
    /// The starting state.
    pub fn new(ckptmini_path: String, checkpoint_dir: String) -> (r: Self)
        ensures
            r@ == initial_view(ckptmini_path@, checkpoint_dir@),
    {
        let r = App {
            tab: Tab::Processes,
            focus: Focus::List,
            processes: Vec::new(),
            process_scroll: 0,
            memory_regions: Vec::new(),
            memory_scroll: 0,
            checkpoints: Vec::new(),
            checkpoint_scroll: 0,
            show_help: false,
            status_message: None,
            status_is_error: false,
            ckptmini_path,
            checkpoint_dir,
            sort_by: SortBy::Memory,
            sort_ascending: false,
            search_query: String::new(),
            is_searching: false,
            show_hex_view: false,
            hex_data: String::new(),
            hex_scroll: 0,
            hex_search: String::new(),
            is_hex_searching: false,
            dump_output: String::new(),
            output_scroll: 0,
            process_info: String::new(),
            output_log: Vec::new(),
            input_mode: false,
            input_buffer: String::new(),
            process_info_scroll: 0,
            total_memory_size: 0,
            show_confirm: false,
            confirm_message: String::new(),
            pending_hex_load: None,
            extended_mode: false,
            extended_command: String::new(),
            saved_search: None,
        };
        proof {
            assert(r@ =~= initial_view(ckptmini_path@, checkpoint_dir@));
        }
        r
    }

    /// The process under the cursor.
    pub fn selected_process(&self) -> (r: Option<&ProcessInfo>)
        ensures
            match r {
                Some(p) => selected_proc(self@) == Some(p@),
                None => selected_proc(self@) is None,
            },
    {
        if self.process_scroll < self.processes.len() {
            Some(&self.processes[self.process_scroll])
        } else {
            None
        }
    }

    /// The memory region under the cursor.
    pub fn selected_memory_region(&self) -> (r: Option<&MemoryRegion>)
        ensures
            match r {
                Some(m) => selected_region(self@) == Some(m@),
                None => selected_region(self@) is None,
            },
    {
        if self.memory_scroll < self.memory_regions.len() {
            Some(&self.memory_regions[self.memory_scroll])
        } else {
            None
        }
    }

    /// The checkpoint under the cursor.
    pub fn selected_checkpoint(&self) -> (r: Option<&CheckpointInfo>)
        ensures
            match r {
                Some(c) => selected_ckpt(self@) == Some(c@),
                None => selected_ckpt(self@) is None,
            },
    {
        if self.checkpoint_scroll < self.checkpoints.len() {
            Some(&self.checkpoints[self.checkpoint_scroll])
        } else {
            None
        }
    }

    /// Adds a line to the log, dropping the oldest lines beyond the cap.
    pub fn add_output(&mut self, line: String)
        ensures
            final(self)@ == logged(old(self)@, line@),
    {
        let ghost full = old(self)@.output_log.push(line@);
        self.output_log.push(line);
        proof {
            assert(string_views(self.output_log@) =~= full);
            assert(full.skip(0) =~= full);
        }
        let ghost mut dropped: int = 0;
        while self.output_log.len() > 500
            invariant
                string_views(self.output_log@) == full.skip(dropped),
                0 <= dropped <= full.len(),
                full.len() <= log_cap() ==> dropped == 0,
                full.len() > log_cap() ==> dropped <= full.len() - log_cap(),
                self@ == (AppView { output_log: full.skip(dropped), ..old(self)@ }),
            decreases self.output_log@.len(),
        {
            let ghost before = self.output_log@;
            proof {
                assert(string_views(before).len() == before.len());
                assert(full.skip(dropped).len() == full.len() - dropped);
            }
            self.output_log.remove(0);
            proof {
                assert(self.output_log@ =~= before.subrange(1, before.len() as int));
                assert(string_views(self.output_log@) =~= string_views(before).subrange(
                    1,
                    before.len() as int,
                ));
                assert(string_views(self.output_log@) =~= full.skip(dropped + 1));
                dropped = dropped + 1;
            }
        }
        proof {
            assert(full.skip(dropped) =~= capped(full));
        }
    }

    /// Orders the process list by the chosen field and direction (a stable sort).
    pub fn sort_processes(&mut self)
        ensures
            final(self)@ == sorted_state(old(self)@),
    {
        let sorted = sort_processes_by(&self.processes, self.sort_by, self.sort_ascending);
        self.processes = sorted;
    }

    /// Shows a status message and logs it.
    pub fn set_status(&mut self, message: String)
        ensures
            final(self)@ == with_status(old(self)@, message@),
    {
        self.status_message = Some(message.clone());
        self.status_is_error = false;
        let mut line = String::from_str("[status] ");
        line.append(message.as_str());
        self.add_output(line);
    }

    /// Shows an error message and logs it.
    pub fn set_error(&mut self, message: String)
        ensures
            final(self)@ == with_error(old(self)@, message@),
    {
        self.status_message = Some(message.clone());
        self.status_is_error = true;
        let mut line = String::from_str("[error] ");
        line.append(message.as_str());
        self.add_output(line);
    }

    /// Removes the status message.
    pub fn clear_status(&mut self)
        ensures
            final(self)@ == without_status(old(self)@),
    {
        self.status_message = None;
        self.status_is_error = false;
    }

    /// Switches to the next tab and logs the switch.
    pub fn next_tab(&mut self)
        ensures
            final(self)@ == switched_to(old(self)@, tab_after(old(self).tab)),
    {
        self.tab = match self.tab {
            Tab::Processes => Tab::Memory,
            Tab::Memory => Tab::Checkpoints,
            Tab::Checkpoints => Tab::Processes,
        };
        let line = switch_line(self.tab);
        self.add_output(line);
    }

    /// Switches to the previous tab and logs the switch.
    pub fn prev_tab(&mut self)
        ensures
            final(self)@ == switched_to(old(self)@, tab_before(old(self).tab)),
    {
        self.tab = match self.tab {
            Tab::Processes => Tab::Checkpoints,
            Tab::Memory => Tab::Processes,
            Tab::Checkpoints => Tab::Memory,
        };
        let line = switch_line(self.tab);
        self.add_output(line);
    }

    /// Keeps the current search.
    pub fn save_current_search(&mut self)
        ensures
            final(self)@ == with_saved_search(old(self)@, Some(old(self)@.search_query)),
    {
        self.saved_search = Some(self.search_query.clone());
    }

    /// Forgets the kept search.
    pub fn clear_saved_search(&mut self)
        ensures
            final(self)@ == with_saved_search(old(self)@, None),
    {
        self.saved_search = None;
    }
}

/// The log line for a switch to tab `t`.
fn switch_line(t: Tab) -> (r: String)
    ensures
        r@ == "[mode] Switched to "@ + tab_name(t),
{
    let mut r = String::from_str("[mode] Switched to ");
    r.append(
        match t {
            Tab::Processes => "Processes",
            Tab::Memory => "Memory",
            Tab::Checkpoints => "Checkpoints",
        },
    );
    r
}

/// Switching to the next tab and then to the previous one comes back to the same tab.
pub proof fn tab_round_trip(t: Tab)
    ensures
        tab_before(tab_after(t)) == t,
        tab_after(tab_before(t)) == t,
{
}

/// Three switches to the next tab come back to the same tab.
pub proof fn tab_cycle(t: Tab)
    ensures
        tab_after(tab_after(tab_after(t))) == t,
{
}

/// The log never holds more than `log_cap()` lines, and its newest line is the one added last.
pub proof fn log_is_capped(v: AppView, line: Seq<char>)
    ensures
        logged(v, line).output_log.len() <= log_cap(),
        logged(v, line).output_log.last() == line,
{
}

/// Sorting the process list a second time, with nothing changed since, leaves it as the first
/// sort left it.
pub proof fn sort_twice_law(v: AppView)
    ensures
        sorted_state(sorted_state(v)) == sorted_state(v),
{
    crate::models::process::process_order_is_strict_weak(v.sort_by, v.sort_ascending);
    crate::order::stable_sort_idempotent(
        v.processes,
        crate::models::process::process_order(v.sort_by, v.sort_ascending),
    );
    assert(sorted_state(sorted_state(v)) =~= sorted_state(v));
}

} // verus!
