//! Keys the interface reacts to, and the work it asks the surrounding program to do.
use vstd::prelude::*;

verus! {

/// A key press, as far as the interface tells keys apart.
#[derive(Debug, Clone, Copy, PartialEq, Eq, Structural)]
pub enum Key {
    Char(char),
    Tab,
    BackTab,
    Enter,
    Esc,
    Backspace,
    Up,
    Down,
    PageUp,
    PageDown,
    Home,
    End,
    Other,
}

/// Work that needs the outside world: listing processes or checkpoints, running the checkpoint
/// tool, deleting a directory. The surrounding program performs each command in order and hands
/// the result to the matching function of the interface.
#[derive(Debug)]
pub enum Command {
    /// List the processes and pass them to `refresh_processes`.
    RefreshProcesses,
    /// List the checkpoints and pass them to `refresh_checkpoints`.
    RefreshCheckpoints,
    /// Run `dump` for the process and pass the output to `load_memory_regions`.
    LoadMemoryRegions { pid: u32 },
    /// Run `read` for `size` bytes at `start` and pass the output to `hex_dump_loaded`.
    ReadMemory { pid: u32, start: u64, size: u64 },
    /// Run `show` for the process and pass the output to `load_process_info`.
    LoadProcessInfo { pid: u32 },
    /// Run `resolve` and pass the output to `resolve_finished`.
    Resolve { pid: u32, symbol: String },
    /// Run `restore` and pass the result to `restore_finished`.
    Restore { pid: u32, path: String },
    /// Delete the checkpoint directory and pass the result to `delete_finished`.
    DeleteCheckpoint { path: String },
    /// Run `parasite` and pass the result to `parasite_finished`.
    Parasite { pid: u32, path: String },
    /// Run `inject_shellcode` and pass the result to `inject_finished`.
    InjectShellcode { pid: u32 },
    /// Read the clock, pass it to `create_checkpoint`, run `save` into the directory it names,
    /// and pass the result to `checkpoint_saved`.
    CreateCheckpoint { pid: u32, name: String },
    /// List the processes and pass them to `filter_processes_by_search`.
    SearchProcesses,
    /// Run `dump` for the process and pass the output to `filter_memory_regions`.
    SearchMemory { pid: u32 },
    /// List the checkpoints and pass them to `filter_checkpoints`.
    SearchCheckpoints,
    /// Call `clear_status`.
    ClearStatus,
    /// Write `text` to the file `path`; a failure is ignored.
    WriteMeta { path: String, text: String },
}

/// The abstract value of a command.
pub enum CommandView {
    RefreshProcesses,
    RefreshCheckpoints,
    LoadMemoryRegions { pid: u32 },
    ReadMemory { pid: u32, start: u64, size: u64 },
    LoadProcessInfo { pid: u32 },
    Resolve { pid: u32, symbol: Seq<char> },
    Restore { pid: u32, path: Seq<char> },
    DeleteCheckpoint { path: Seq<char> },
    Parasite { pid: u32, path: Seq<char> },
    InjectShellcode { pid: u32 },
    CreateCheckpoint { pid: u32, name: Seq<char> },
    SearchProcesses,
    SearchMemory { pid: u32 },
    SearchCheckpoints,
    ClearStatus,
    WriteMeta { path: Seq<char>, text: Seq<char> },
}

impl View for Command {
    type V = CommandView;

    open spec fn view(&self) -> CommandView {
        match self {
            Command::RefreshProcesses => CommandView::RefreshProcesses,
            Command::RefreshCheckpoints => CommandView::RefreshCheckpoints,
            Command::LoadMemoryRegions { pid } => CommandView::LoadMemoryRegions { pid: *pid },
            Command::ReadMemory { pid, start, size } => CommandView::ReadMemory {
                pid: *pid,
                start: *start,
                size: *size,
            },
            Command::LoadProcessInfo { pid } => CommandView::LoadProcessInfo { pid: *pid },
            Command::Resolve { pid, symbol } => CommandView::Resolve { pid: *pid, symbol: symbol@ },
            Command::Restore { pid, path } => CommandView::Restore { pid: *pid, path: path@ },
            Command::DeleteCheckpoint { path } => CommandView::DeleteCheckpoint { path: path@ },
            Command::Parasite { pid, path } => CommandView::Parasite { pid: *pid, path: path@ },
            Command::InjectShellcode { pid } => CommandView::InjectShellcode { pid: *pid },
            Command::CreateCheckpoint { pid, name } => CommandView::CreateCheckpoint {
                pid: *pid,
                name: name@,
            },
            Command::SearchProcesses => CommandView::SearchProcesses,
            Command::SearchMemory { pid } => CommandView::SearchMemory { pid: *pid },
            Command::SearchCheckpoints => CommandView::SearchCheckpoints,
            Command::ClearStatus => CommandView::ClearStatus,
            Command::WriteMeta { path, text } => CommandView::WriteMeta { path: path@, text: text@ },
        }
    }
}

/// The abstract values of a list of commands.
pub open spec fn command_views(v: Seq<Command>) -> Seq<CommandView> {
    v.map_values(|c: Command| c@)
}

} // verus!
