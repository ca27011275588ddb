//! Memory regions of a process and their permissions.
use vstd::prelude::*;
use crate::num::{decimal, f64_of, f64_value, one_decimal, one_decimal_chars, radix_string};

verus! {

/// Read, write and execute permission bits of a memory region.
#[derive(Debug, Clone, Copy, PartialEq, Eq, Structural)]
pub struct Permissions {
    pub read: bool,
    pub write: bool,
    pub execute: bool,
}

/// `"rwx"` with `'-'` in place of each permission that is missing.
pub open spec fn perms_text(p: Permissions) -> Seq<char> {
    seq![
        if p.read { 'r' } else { '-' },
        if p.write { 'w' } else { '-' },
        if p.execute { 'x' } else { '-' },
    ]
}

/// The permissions that a permission column such as `"r-xp"` spells: its first three characters
/// are tested for `'r'`, `'w'` and `'x'`; a missing character counts as `'-'`.
pub open spec fn perms_of(s: Seq<char>) -> Permissions {
    Permissions {
        read: s.len() > 0 && s[0] == 'r',
        write: s.len() > 1 && s[1] == 'w',
        execute: s.len() > 2 && s[2] == 'x',
    }
}

impl Permissions {
    /// Reads a permission column.
    pub fn parse(s: &Vec<char>) -> (r: Permissions)
        ensures
            r == perms_of(s@),
    {
        Permissions {
            read: s.len() > 0 && s[0] == 'r',
            write: s.len() > 1 && s[1] == 'w',
            execute: s.len() > 2 && s[2] == 'x',
        }
    }

    /// The permissions as three characters, `'-'` for each one that is missing.
    pub fn as_string(&self) -> (r: String)
        ensures
            r@ == perms_text(*self),
    {
        let mut r = String::new();
        r.push(if self.read { 'r' } else { '-' });
        r.push(if self.write { 'w' } else { '-' });
        r.push(if self.execute { 'x' } else { '-' });
        proof {
            assert(r@ =~= perms_text(*self));
        }
        r
    }
}

/// Reading the text of a permission set gives the same permissions back.
pub proof fn perms_text_round_trip(p: Permissions)
    ensures
        perms_of(perms_text(p)) == p,
{
}

/// The abstract value of a memory region.
pub struct RegionView {
    pub start: u64,
    pub end: u64,
    pub perms: Permissions,
    pub offset: u64,
    pub device: Seq<char>,
    pub inode: u64,
    pub path: Option<Seq<char>>,
}

/// One mapping of a process's address space.
#[derive(Debug)]
pub struct MemoryRegion {
    pub start: u64,
    pub end: u64,
    pub perms: Permissions,
    pub offset: u64,
    pub device: String,
    pub inode: u64,
    pub path: Option<String>,
}

/// The characters of an optional string.
pub open spec fn opt_view(o: Option<String>) -> Option<Seq<char>> {
    match o {
        Some(s) => Some(s@),
        None => None,
    }
}

impl View for MemoryRegion {
    type V = RegionView;

    open spec fn view(&self) -> RegionView {
        RegionView {
            start: self.start,
            end: self.end,
            perms: self.perms,
            offset: self.offset,
            device: self.device@,
            inode: self.inode,
            path: opt_view(self.path),
        }
    }
}

/// A copy of an optional string.
pub fn copy_opt_string(o: &Option<String>) -> (r: Option<String>)
    ensures
        opt_view(r) == opt_view(*o),
{
    match o {
        Some(s) => Some(s.clone()),
        None => None,
    }
}

impl Clone for MemoryRegion {
    fn clone(&self) -> (r: Self)
        ensures
            r@ == self@,
    {
        MemoryRegion {
            start: self.start,
            end: self.end,
            perms: self.perms,
            offset: self.offset,
            device: self.device.clone(),
            inode: self.inode,
            path: copy_opt_string(&self.path),
        }
    }
}

/// Bytes in a kibibyte, a mebibyte and a gibibyte.
pub open spec fn kib() -> nat {
    1024
}

pub open spec fn mib() -> nat {
    1024 * 1024
}

pub open spec fn gib() -> nat {
    1024 * 1024 * 1024
}

/// A byte count as text: below a kibibyte the count and `"B"`; otherwise the count in the
/// largest of KB, MB and GB that it reaches, with one decimal as `{:.1}` prints `bytes as f64`
/// divided by the unit.
pub open spec fn size_text(bytes: u64) -> Seq<char> {
    if bytes >= gib() {
        one_decimal(f64_of(bytes as nat), gib()) + seq!['G', 'B']
    } else if bytes >= mib() {
        one_decimal(bytes as nat, mib()) + seq!['M', 'B']
    } else if bytes >= kib() {
        one_decimal(bytes as nat, kib()) + seq!['K', 'B']
    } else {
        decimal(bytes as nat) + seq!['B']
    }
}

/// The size in bytes of the span `start..end`, taken modulo 2^64.
pub open spec fn span_len(start: u64, end: u64) -> u64 {
    ((end as int - start as int) % 0x1_0000_0000_0000_0000) as u64
}

impl MemoryRegion {
    /// Formats a byte count: whole bytes below 1 KB, else one decimal of KB, MB or GB.
    pub fn format_size(bytes: u64) -> (r: String)
        ensures
            r@ == size_text(bytes),
    {
        let mut v: Vec<char>;
        if bytes >= 1024 * 1024 * 1024 {
            let m = f64_value(bytes);
            v = one_decimal_chars(m, 1024 * 1024 * 1024);
            v.push('G');
            v.push('B');
        } else if bytes >= 1024 * 1024 {
            v = one_decimal_chars(bytes as u128, 1024 * 1024);
            v.push('M');
            v.push('B');
        } else if bytes >= 1024 {
            v = one_decimal_chars(bytes as u128, 1024);
            v.push('K');
            v.push('B');
        } else {
            v = radix_string(bytes, 10);
            v.push('B');
        }
        proof {
            if bytes >= gib() {
                assert(v@ =~= one_decimal(f64_of(bytes as nat), gib()) + seq!['G', 'B']);
            } else if bytes >= mib() {
                assert(v@ =~= one_decimal(bytes as nat, mib()) + seq!['M', 'B']);
            } else if bytes >= kib() {
                assert(v@ =~= one_decimal(bytes as nat, kib()) + seq!['K', 'B']);
            } else {
                assert(v@ =~= decimal(bytes as nat) + seq!['B']);
            }
        }
        crate::text::string_from(&v)
    }

    /// The region's size in bytes, `end - start` taken modulo 2^64.
    pub fn size(&self) -> (r: u64)
        ensures
            r == span_len(self.start, self.end),
    {
        self.end.wrapping_sub(self.start)
    }

    /// The region's size as text.
    pub fn human_size(&self) -> (r: String)
        ensures
            r@ == size_text(span_len(self.start, self.end)),
    {
        MemoryRegion::format_size(self.size())
    }
}

} // verus!
