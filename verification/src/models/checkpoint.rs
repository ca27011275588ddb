//! Checkpoints: what a checkpoint directory holds, and how its age and size are shown.
use vstd::prelude::*;
use crate::text::{file_name, file_name_of};
use crate::foreign::{json_str_at, json_str_field, json_u64_at, json_u64_field, now_secs};
use crate::models::memory::{size_text, MemoryRegion};
use crate::num::{decimal, radix_string};
use crate::text::{chars_of, ends_with, has_suffix};

verus! {

/// The abstract value of a checkpoint record.
pub struct CheckpointView {
    pub path: Seq<char>,
    pub pid: u32,
    pub created: u64,
    pub regions: u32,
    pub size_bytes: u64,
    pub command: Seq<char>,
}

/// A saved checkpoint: its directory, the process it was taken from, when it was made (seconds
/// since the Unix epoch), how many memory regions and bytes it holds, and the command line.
#[derive(Debug)]
pub struct CheckpointInfo {
    pub path: String,
    pub pid: u32,
    pub created: u64,
    pub regions: u32,
    pub size_bytes: u64,
    pub command: String,
}

impl View for CheckpointInfo {
    type V = CheckpointView;

    open spec fn view(&self) -> CheckpointView {
        CheckpointView {
            path: self.path@,
            pid: self.pid,
            created: self.created,
            regions: self.regions,
            size_bytes: self.size_bytes,
            command: self.command@,
        }
    }
}

impl Clone for CheckpointInfo {
    fn clone(&self) -> (r: Self)
        ensures
            r@ == self@,
    {
        CheckpointInfo {
            path: self.path.clone(),
            pid: self.pid,
            created: self.created,
            regions: self.regions,
            size_bytes: self.size_bytes,
            command: self.command.clone(),
        }
    }
}

/// The abstract values of a sequence of checkpoint records.
pub open spec fn checkpoint_views(v: Seq<CheckpointInfo>) -> Seq<CheckpointView> {
    v.map_values(|c: CheckpointInfo| c@)
}

/// One readable entry of a checkpoint's `mem` directory: its file name and, when its metadata
/// could be read, its length in bytes.
pub struct MemEntry {
    pub name: String,
    pub len: Option<u64>,
}

/// What a candidate checkpoint directory holds: its path, whether it is a directory, whether it
/// has a `mem` subdirectory, the entries of `mem` (`None` when it cannot be listed), its creation
/// time in seconds since the epoch (`None` when unknown) and the text of its `meta.json` (`None`
/// when it cannot be read).
pub struct CheckpointDir {
    pub path: String,
    pub is_dir: bool,
    pub has_mem: bool,
    pub mem_entries: Option<Vec<MemEntry>>,
    pub created: Option<u64>,
    pub meta: Option<String>,
}

/// Whether a file name has the extension `bin`, as `Path::extension` reads it: a `.bin`
/// ending, and something before that final dot.
pub open spec fn is_bin_name(n: Seq<char>) -> bool {
    n.len() > 4 && has_suffix(n, ".bin"@)
}

/// How many entries are `.bin` files.
pub open spec fn bin_count(es: Seq<MemEntry>) -> nat
    decreases es.len(),
{
    if es.len() == 0 {
        0
    } else {
        bin_count(es.drop_last()) + if is_bin_name(es.last().name@) {
            1nat
        } else {
            0nat
        }
    }
}

/// The sum of the known entry lengths.
pub open spec fn len_total(es: Seq<MemEntry>) -> nat
    decreases es.len(),
{
    if es.len() == 0 {
        0
    } else {
        len_total(es.drop_last()) + match es.last().len {
            Some(l) => l as nat,
            None => 0nat,
        }
    }
}

/// The process id recorded in a `meta.json` text, truncated to 32 bits, or 0.
pub open spec fn meta_pid(meta: Option<String>) -> u32 {
    match meta {
        Some(t) => match json_u64_at(t@, "pid"@) {
            Some(p) => (p as nat % 0x1_0000_0000) as u32,
            None => 0,
        },
        None => 0,
    }
}

/// The command recorded in `meta.json`, else the directory's file name, else empty.
pub open spec fn meta_command(meta: Option<String>, path: Seq<char>) -> Seq<char> {
    let from_meta = match meta {
        Some(t) => json_str_at(t@, "command"@),
        None => None,
    };
    match from_meta {
        Some(c) => c,
        None => match file_name_of(path) {
            Some(n) => n,
            None => seq![],
        },
    }
}

/// The checkpoint a directory describes: none unless it is a directory with a `mem`
/// subdirectory. The region count is the number of `.bin` entries modulo 2^32 and the size the
/// sum of entry lengths modulo 2^64 (both 0 when `mem` cannot be listed); the creation time is
/// 0 when unknown.
pub open spec fn checkpoint_of(d: CheckpointDir) -> Option<CheckpointView> {
    if !d.is_dir || !d.has_mem {
        None
    } else {
        let (regions, size) = match d.mem_entries {
            Some(es) => (
                (bin_count(es@) % 0x1_0000_0000) as u32,
                (len_total(es@) % 0x1_0000_0000_0000_0000) as u64,
            ),
            None => (0u32, 0u64),
        };
        Some(
            CheckpointView {
                path: d.path@,
                pid: meta_pid(d.meta),
                created: match d.created {
                    Some(c) => c,
                    None => 0,
                },
                regions: regions,
                size_bytes: size,
                command: meta_command(d.meta, d.path@),
            },
        )
    }
}

/// The age of something made at `created`, seen at `now`: seconds below a minute, then whole
/// minutes, hours or days, each followed by `" ago"`; a future time counts as 0 seconds.
pub open spec fn age_text(created: u64, now: u64) -> Seq<char> {
    let e: nat = if now >= created {
        (now - created) as nat
    } else {
        0
    };
    if e < 60 {
        decimal(e) + "s ago"@
    } else if e < 3600 {
        decimal(e / 60) + "m ago"@
    } else if e < 86400 {
        decimal(e / 3600) + "h ago"@
    } else {
        decimal(e / 86400) + "d ago"@
    }
}

impl CheckpointInfo {
    /// Reads a checkpoint from what its directory holds.
    pub fn from_dir(d: &CheckpointDir) -> (r: Option<CheckpointInfo>)
        ensures
            match r {
                Some(c) => checkpoint_of(*d) == Some(c@),
                None => checkpoint_of(*d) is None,
            },
    {
        if !d.is_dir || !d.has_mem {
            return None;
        }
        let bin = chars_of(".bin");
        let mut regions: u32 = 0;
        let mut size: u64 = 0;
        match &d.mem_entries {
            Some(es) => {
                for i in 0..es.len()
                    invariant
                        bin@ == ".bin"@,
                        regions as nat == bin_count(es@.take(i as int)) % 0x1_0000_0000,
                        size as nat == len_total(es@.take(i as int)) % 0x1_0000_0000_0000_0000,
                {
                    proof {
                        assert(es@.take(i as int + 1).drop_last() =~= es@.take(i as int));
                    }
                    let name = chars_of(es[i].name.as_str());
                    if name.len() > 4 && ends_with(&name, &bin) {
                        regions = regions.wrapping_add(1);
                    }
                    match es[i].len {
                        Some(l) => {
                            size = size.wrapping_add(l);
                        },
                        None => {},
                    }
                }
                proof {
                    assert(es@.take(es@.len() as int) =~= es@);
                }
            },
            None => {},
        }
        let pid: u32 = match &d.meta {
            Some(t) => match json_u64_field(t.as_str(), "pid") {
                Some(p) => (p % 0x1_0000_0000) as u32,
                None => 0,
            },
            None => 0,
        };
        let from_meta = match &d.meta {
            Some(t) => json_str_field(t.as_str(), "command"),
            None => None,
        };
        let command = match from_meta {
            Some(c) => c,
            None => match file_name(d.path.as_str()) {
                Some(n) => n,
                None => String::new(),
            },
        };
        let created = match d.created {
            Some(c) => c,
            None => 0,
        };
        Some(
            CheckpointInfo {
                path: d.path.clone(),
                pid,
                created,
                regions,
                size_bytes: size,
                command,
            },
        )
    }

    /// The checkpoint's age at time `now` (seconds since the epoch).
    pub fn age_string_at(&self, now: u64) -> (r: String)
        ensures
            r@ == age_text(self.created, now),
    {
        let elapsed = now.saturating_sub(self.created);
        let (n, unit) = if elapsed < 60 {
            (elapsed, "s ago")
        } else if elapsed < 3600 {
            (elapsed / 60, "m ago")
        } else if elapsed < 86400 {
            (elapsed / 3600, "h ago")
        } else {
            (elapsed / 86400, "d ago")
        };
        let digits = radix_string(n, 10);
        let mut r = crate::text::string_from(&digits);
        r.append(unit);
        r
    }

    /// The checkpoint's age now, by the system clock.
    pub fn age_string(&self) -> (r: String)
        ensures
            exists|now: u64| r@ == age_text(self.created, now),
    {
        let now = now_secs();
        self.age_string_at(now)
    }

    /// The checkpoint's total size as text.
    pub fn human_size(&self) -> (r: String)
        ensures
            r@ == size_text(self.size_bytes),
    {
        MemoryRegion::format_size(self.size_bytes)
    }
}

} // verus!
