//! Processes: reading `/proc` entries into process records, and ordering them.
use vstd::prelude::*;
use vstd::std_specs::convert::FromSpecImpl;
use crate::foreign::{lossy_text, lowercase, lowercase_of, utf8_lossy};
use crate::num::{parse_uint, parse_uint_spec};
use crate::text::{
    chars_of, has_prefix, lines_of, split_lines, split_words, starts_with, trim, trim_end_matches,
    trim_end_matches_of, trim_of, views, words_of,
};
use crate::order::{
    insert_by, lemma_insert_at, ordered_by, stable_sort_orders, stable_sort_permutes, stable_sorted,
    strict_weak,
};
use crate::ui::app::SortBy;

verus! {

/// The scheduler state of a process, from the `State:` line of its status file.
#[derive(Debug, Clone, Copy, PartialEq, Eq, Structural)]
pub enum ProcessState {
    Running,
    Sleeping,
    Stopped,
    Zombie,
    Unknown,
}

/// The state that a one-letter state code names: `R`, `S`, `T` and `Z`; anything else is unknown.
pub open spec fn state_of_code(c: Seq<char>) -> ProcessState {
    if c == seq!['R'] {
        ProcessState::Running
    } else if c == seq!['S'] {
        ProcessState::Sleeping
    } else if c == seq!['T'] {
        ProcessState::Stopped
    } else if c == seq!['Z'] {
        ProcessState::Zombie
    } else {
        ProcessState::Unknown
    }
}

impl ProcessState {
    /// Reads a state code.
    pub fn from_code(c: &Vec<char>) -> (r: ProcessState)
        ensures
            r == state_of_code(c@),
    {
        if c.len() == 1 {
            let x = c[0];
            proof {
                assert(c@ =~= seq![x]);
            }
            if x == 'R' {
                ProcessState::Running
            } else if x == 'S' {
                ProcessState::Sleeping
            } else if x == 'T' {
                ProcessState::Stopped
            } else if x == 'Z' {
                ProcessState::Zombie
            } else {
                ProcessState::Unknown
            }
        } else {
            proof {
                assert(c@ != seq!['R'] && c@ != seq!['S'] && c@ != seq!['T'] && c@ != seq!['Z']);
            }
            ProcessState::Unknown
        }
    }
}

impl<'a> From<&'a str> for ProcessState {
    /// Reads a state code given as a string slice.
    fn from(s: &'a str) -> (r: Self) {
        let c = chars_of(s);
        ProcessState::from_code(&c)
    }
}

impl<'a> FromSpecImpl<&'a str> for ProcessState {
    open spec fn obeys_from_spec() -> bool {
        true
    }

    open spec fn from_spec(s: &'a str) -> ProcessState {
        state_of_code(s@)
    }
}

/// The abstract value of a process record.
pub struct ProcessView {
    pub pid: u32,
    pub name: Seq<char>,
    pub memory_total: u64,
    pub threads: u32,
    pub state: ProcessState,
}

/// A running process: its id, command line, resident memory in bytes, threads and state.
#[derive(Debug)]
pub struct ProcessInfo {
    pub pid: u32,
    pub name: String,
    pub memory_total: u64,
    pub threads: u32,
    pub state: ProcessState,
}

impl View for ProcessInfo {
    type V = ProcessView;

    open spec fn view(&self) -> ProcessView {
        ProcessView {
            pid: self.pid,
            name: self.name@,
            memory_total: self.memory_total,
            threads: self.threads,
            state: self.state,
        }
    }
}

impl Clone for ProcessInfo {
    fn clone(&self) -> (r: Self)
        ensures
            r@ == self@,
    {
        ProcessInfo {
            pid: self.pid,
            name: self.name.clone(),
            memory_total: self.memory_total,
            threads: self.threads,
            state: self.state,
        }
    }
}

/// The abstract values of a sequence of process records.
pub open spec fn process_views(v: Seq<ProcessInfo>) -> Seq<ProcessView> {
    v.map_values(|p: ProcessInfo| p@)
}

/// `n` read as an unsigned number no larger than `max`, or `default` when it is not one.
pub open spec fn number_or(s: Seq<char>, max: nat, default: nat) -> nat {
    match parse_uint_spec(s, 10, max) {
        Some(v) => v,
        None => default,
    }
}

/// The state named by the first word of `s`, `Unknown` when there is none.
pub open spec fn state_of_field(s: Seq<char>) -> ProcessState {
    let ws = words_of(trim_of(s));
    if ws.len() > 0 {
        state_of_code(ws[0])
    } else {
        ProcessState::Unknown
    }
}

/// What the lines of a status file say: resident kilobytes from the last `VmRSS:` line (0 when
/// unreadable or absent), threads from the last `Threads:` line (1 likewise) and the state from
/// the last `State:` line.
pub open spec fn status_fields(lines: Seq<Seq<char>>) -> (u64, u32, ProcessState)
    decreases lines.len(),
{
    if lines.len() == 0 {
        (0, 1, ProcessState::Unknown)
    } else {
        let (m, t, st) = status_fields(lines.drop_last());
        let l = lines.last();
        if has_prefix(l, "VmRSS:"@) {
            let v = trim_end_matches_of(trim_of(l.skip("VmRSS:"@.len() as int)), " kB"@);
            (number_or(v, u64::MAX as nat, 0) as u64, t, st)
        } else if has_prefix(l, "Threads:"@) {
            let v = trim_of(l.skip("Threads:"@.len() as int));
            (m, number_or(v, u32::MAX as nat, 1) as u32, st)
        } else if has_prefix(l, "State:"@) {
            (m, t, state_of_field(l.skip("State:"@.len() as int)))
        } else {
            (m, t, st)
        }
    }
}

/// Reads the `VmRSS:`, `Threads:` and `State:` lines of a status file.
pub fn parse_status(content: &str) -> (r: (u64, u32, ProcessState))
    ensures
        r == status_fields(lines_of(content@)),
{
    let lines = crate::text::lines_of_str(content);
    let vm = chars_of("VmRSS:");
    let th = chars_of("Threads:");
    let stt = chars_of("State:");
    let kb = chars_of(" kB");
    let mut m: u64 = 0;
    let mut t: u32 = 1;
    let mut st = ProcessState::Unknown;
    for i in 0..lines.len()
        invariant
            vm@ == "VmRSS:"@,
            th@ == "Threads:"@,
            stt@ == "State:"@,
            kb@ == " kB"@,
            (m, t, st) == status_fields(views(lines@).take(i as int)),
    {
        let l = &lines[i];
        proof {
            assert(views(lines@).take(i as int + 1).drop_last() =~= views(lines@).take(i as int));
            assert(views(lines@).take(i as int + 1).last() == l@);
        }
        if starts_with(l, &vm) {
            let rest = skip_chars(l, vm.len());
            let v = trim_end_matches(&trim(&rest), &kb);
            m = match parse_uint(&v, 10, u64::MAX) {
                Some(x) => x,
                None => 0,
            };
        } else if starts_with(l, &th) {
            let rest = skip_chars(l, th.len());
            let v = trim(&rest);
            t = match parse_uint(&v, 10, u32::MAX as u64) {
                Some(x) => x as u32,
                None => 1,
            };
        } else if starts_with(l, &stt) {
            let rest = skip_chars(l, stt.len());
            let ws = split_words(&trim(&rest));
            st = if ws.len() > 0 {
                ProcessState::from_code(&ws[0])
            } else {
                ProcessState::Unknown
            };
        }
    }
    proof {
        assert(views(lines@).take(lines@.len() as int) =~= views(lines@));
    }
    (m, t, st)
}

/// The characters of `v` from position `k` on.
pub fn skip_chars(v: &Vec<char>, k: usize) -> (r: Vec<char>)
    requires
        k <= v@.len(),
    ensures
        r@ == v@.skip(k as int),
{
    let mut r: Vec<char> = Vec::new();
    let mut i = k;
    while i < v.len()
        invariant
            k <= i <= v@.len(),
            r@ == v@.subrange(k as int, i as int),
        decreases v@.len() - i,
    {
        r.push(v[i]);
        proof {
            assert(v@.subrange(k as int, i + 1) =~= v@.subrange(k as int, i as int).push(
                v@[i as int],
            ));
        }
        i = i + 1;
    }
    proof {
        assert(v@.subrange(k as int, v@.len() as int) =~= v@.skip(k as int));
    }
    r
}

/// `s` with each NUL character replaced by a space.
pub open spec fn nul_to_space(s: Seq<char>) -> Seq<char> {
    s.map_values(|c: char| if c == '\0' { ' ' } else { c })
}

/// What a `/proc` directory entry holds: its name, whether it is a directory, the bytes of its
/// `cmdline` file (`None` when absent or unreadable) and the text of its `status` file (`None`
/// when absent or unreadable).
pub struct ProcEntry {
    pub name: String,
    pub is_dir: bool,
    pub cmdline: Option<Vec<u8>>,
    pub status: Option<String>,
}

/// The process an entry describes: a directory whose name is a process id and whose command
/// line, NULs made spaces, is not empty. Its memory is the resident kilobytes times 1024,
/// modulo 2^64.
pub open spec fn entry_process(e: ProcEntry) -> Option<ProcessView> {
    let pid = parse_uint_spec(e.name@, 10, u32::MAX as nat);
    if !e.is_dir || pid is None || e.cmdline is None {
        None
    } else {
        let name = nul_to_space(lossy_text(e.cmdline->0@));
        if name.len() == 0 {
            None
        } else {
            let (m, t, st) = match e.status {
                Some(c) => status_fields(lines_of(c@)),
                None => (0u64, 1u32, ProcessState::Unknown),
            };
            Some(
                ProcessView {
                    pid: pid->0 as u32,
                    name: name,
                    memory_total: ((m as nat * 1024) % 0x1_0000_0000_0000_0000) as u64,
                    threads: t,
                    state: st,
                },
            )
        }
    }
}

/// Makes a process record from a `/proc` entry, or `None` when the entry is not a process that
/// is listed.
pub fn process_from_entry(e: &ProcEntry) -> (r: Option<ProcessInfo>)
    ensures
        match r {
            Some(p) => entry_process(*e) == Some(p@),
            None => entry_process(*e) is None,
        },
{
    if !e.is_dir {
        return None;
    }
    let name_chars = chars_of(e.name.as_str());
    let pid = match parse_uint(&name_chars, 10, u32::MAX as u64) {
        Some(p) => p as u32,
        None => {
            return None;
        },
    };
    let bytes = match &e.cmdline {
        Some(b) => b,
        None => {
            return None;
        },
    };
    let text = utf8_lossy(bytes.as_slice());
    let raw = chars_of(text.as_str());
    let mut name_v: Vec<char> = Vec::new();
    for i in 0..raw.len()
        invariant
            name_v@ == nul_to_space(raw@.take(i as int)),
    {
        let c = raw[i];
        name_v.push(if c == '\0' { ' ' } else { c });
        proof {
            assert(nul_to_space(raw@.take(i as int + 1)) =~= nul_to_space(raw@.take(i as int)).push(
                if c == '\0' { ' ' } else { c },
            ));
        }
    }
    proof {
        assert(raw@.take(raw@.len() as int) =~= raw@);
    }
    if name_v.len() == 0 {
        return None;
    }
    let (m, t, st) = match &e.status {
        Some(c) => parse_status(c.as_str()),
        None => (0u64, 1u32, ProcessState::Unknown),
    };
    let name = crate::text::string_from(&name_v);
    Some(
        ProcessInfo {
            pid: pid,
            name: name,
            memory_total: m.wrapping_mul(1024),
            threads: t,
            state: st,
        },
    )
}

/// Lexicographic order of character sequences by code point, the order `String` comparison
/// gives (UTF-8 byte order and code point order agree).
pub open spec fn lex_lt(a: Seq<char>, b: Seq<char>) -> bool
    decreases a.len(),
{
    if a.len() == 0 {
        b.len() > 0
    } else if b.len() == 0 {
        false
    } else if a[0] != b[0] {
        (a[0] as int) < (b[0] as int)
    } else {
        lex_lt(a.drop_first(), b.drop_first())
    }
}

/// Whether `x` sorts strictly before `e` when ordering by `by`, ascending or descending; names
/// are compared in lower case.
pub open spec fn goes_before(x: ProcessView, e: ProcessView, by: SortBy, asc: bool) -> bool {
    match by {
        SortBy::Memory => if asc {
            x.memory_total < e.memory_total
        } else {
            e.memory_total < x.memory_total
        },
        SortBy::Pid => if asc {
            x.pid < e.pid
        } else {
            e.pid < x.pid
        },
        SortBy::Name => if asc {
            lex_lt(lowercase_of(x.name), lowercase_of(e.name))
        } else {
            lex_lt(lowercase_of(e.name), lowercase_of(x.name))
        },
    }
}

/// The relation "sorts strictly before" for ordering by `by`.
pub open spec fn process_order(by: SortBy, asc: bool) -> spec_fn(ProcessView, ProcessView) -> bool {
    |x: ProcessView, e: ProcessView| goes_before(x, e, by, asc)
}

/// `s` in the order a stable sort by `by` puts it: elements that compare equal keep their order.
pub open spec fn sorted_views(s: Seq<ProcessView>, by: SortBy, asc: bool) -> Seq<ProcessView> {
    stable_sorted(s, process_order(by, asc))
}

/// Whether `a` is lexicographically before `b`.
pub fn lex_less(a: &Vec<char>, b: &Vec<char>) -> (r: bool)
    ensures
        r == lex_lt(a@, b@),
{
    let mut i: usize = 0;
    proof {
        assert(a@.skip(0) =~= a@);
        assert(b@.skip(0) =~= b@);
    }
    while i < a.len() && i < b.len() && a[i] == b[i]
        invariant
            i <= a@.len(),
            i <= b@.len(),
            lex_lt(a@, b@) == lex_lt(a@.skip(i as int), b@.skip(i as int)),
        decreases a@.len() - i,
    {
        proof {
            assert(a@.skip(i as int).drop_first() =~= a@.skip(i + 1));
            assert(b@.skip(i as int).drop_first() =~= b@.skip(i + 1));
        }
        i = i + 1;
    }
    if i == a.len() {
        i < b.len()
    } else if i == b.len() {
        false
    } else {
        a[i] < b[i]
    }
}

/// A process record together with the key that name ordering compares.
struct Keyed {
    info: ProcessInfo,
    key: Vec<char>,
}

/// Whether the key of `k` is the lower-cased name when ordering by name.
spec fn keyed_ok(k: Keyed, by: SortBy) -> bool {
    by == SortBy::Name ==> k.key@ == lowercase_of(k.info.name@)
}

spec fn keyed_views(v: Seq<Keyed>) -> Seq<ProcessView> {
    v.map_values(|k: Keyed| k.info@)
}

fn goes_before_exec(x: &Keyed, e: &Keyed, by: SortBy, asc: bool) -> (r: bool)
    requires
        keyed_ok(*x, by),
        keyed_ok(*e, by),
    ensures
        r == goes_before(x.info@, e.info@, by, asc),
{
    match by {
        SortBy::Memory => if asc {
            x.info.memory_total < e.info.memory_total
        } else {
            e.info.memory_total < x.info.memory_total
        },
        SortBy::Pid => if asc {
            x.info.pid < e.info.pid
        } else {
            e.info.pid < x.info.pid
        },
        SortBy::Name => if asc {
            lex_less(&x.key, &e.key)
        } else {
            lex_less(&e.key, &x.key)
        },
    }
}

/// Orders process records by `by`, ascending or descending, keeping the relative order of
/// records that compare equal (a stable sort).
pub fn sort_processes_by(v: &Vec<ProcessInfo>, by: SortBy, asc: bool) -> (r: Vec<ProcessInfo>)
    ensures
        process_views(r@) == sorted_views(process_views(v@), by, asc),
{
    let mut res: Vec<Keyed> = Vec::new();
    for i in 0..v.len()
        invariant
            keyed_views(res@) == sorted_views(process_views(v@).take(i as int), by, asc),
            forall|k: int| 0 <= k < res@.len() ==> keyed_ok(#[trigger] res@[k], by),
    {
        let info = v[i].clone();
        let key = if by == SortBy::Name {
            let low = lowercase(info.name.as_str());
            chars_of(low.as_str())
        } else {
            Vec::new()
        };
        let x = Keyed { info, key };
        let mut j = res.len();
        while j > 0 && goes_before_exec(&x, &res[j - 1], by, asc)
            invariant
                j <= res@.len(),
                keyed_ok(x, by),
                forall|k: int| 0 <= k < res@.len() ==> keyed_ok(#[trigger] res@[k], by),
                forall|k: int|
                    j <= k < res@.len() ==> goes_before(x.info@, #[trigger] keyed_views(res@)[k], by, asc),
            decreases j,
        {
            j = j - 1;
        }
        let ghost before = keyed_views(res@);
        let ghost xv = x.info@;
        proof {
            lemma_insert_at(before, xv, process_order(by, asc), j as int);
            assert(process_views(v@).take(i as int + 1).drop_last() =~= process_views(v@).take(i as int));
            assert(process_views(v@).take(i as int + 1).last() == xv);
        }
        res.insert(j, x);
        proof {
            assert(keyed_views(res@) =~= before.take(j as int).push(xv) + before.skip(j as int));
        }
    }
    let mut r: Vec<ProcessInfo> = Vec::new();
    for k in 0..res.len()
        invariant
            process_views(r@) == keyed_views(res@).take(k as int),
    {
        let p = res[k].info.clone();
        let ghost before = r@;
        r.push(p);
        proof {
            assert(r@ == before.push(p));
            assert(keyed_views(res@)[k as int] == p@);
            assert(process_views(r@) =~= process_views(before).push(p@));
            assert(process_views(r@) =~= keyed_views(res@).take(k as int + 1));
        }
    }
    proof {
        assert(keyed_views(res@).take(res@.len() as int) =~= keyed_views(res@));
        assert(process_views(v@).take(v@.len() as int) =~= process_views(v@));
    }
    r
}

/// The processes that a listing of `/proc` entries describes, in listing order.
pub open spec fn entries_processes(es: Seq<ProcEntry>) -> Seq<ProcessView>
    decreases es.len(),
{
    if es.len() == 0 {
        seq![]
    } else {
        let rest = entries_processes(es.drop_last());
        match entry_process(es.last()) {
            Some(p) => rest.push(p),
            None => rest,
        }
    }
}

/// The process list from a listing of `/proc` entries: every entry that describes a process,
/// largest resident memory first (a stable sort, so ties keep listing order).
pub fn collect_processes(entries: &Vec<ProcEntry>) -> (r: Vec<ProcessInfo>)
    ensures
        process_views(r@) == sorted_views(entries_processes(entries@), SortBy::Memory, false),
{
    let mut found: Vec<ProcessInfo> = Vec::new();
    for i in 0..entries.len()
        invariant
            process_views(found@) == entries_processes(entries@.take(i as int)),
    {
        proof {
            assert(entries@.take(i as int + 1).drop_last() =~= entries@.take(i as int));
            assert(entries@.take(i as int + 1).last() == entries@[i as int]);
        }
        match process_from_entry(&entries[i]) {
            Some(p) => {
                let ghost before = found@;
                found.push(p);
                proof {
                    assert(process_views(found@) =~= process_views(before).push(p@));
                }
            },
            None => {},
        }
    }
    proof {
        assert(entries@.take(entries@.len() as int) =~= entries@);
    }
    sort_processes_by(&found, SortBy::Memory, false)
}

proof fn lemma_lex_irreflexive(a: Seq<char>)
    ensures
        !lex_lt(a, a),
    decreases a.len(),
{
    if a.len() > 0 {
        lemma_lex_irreflexive(a.drop_first());
    }
}

proof fn lemma_lex_transitive(a: Seq<char>, b: Seq<char>, c: Seq<char>)
    requires
        lex_lt(a, b),
        lex_lt(b, c),
    ensures
        lex_lt(a, c),
    decreases a.len(),
{
    if a.len() > 0 && b.len() > 0 && c.len() > 0 && a[0] == b[0] && b[0] == c[0] {
        lemma_lex_transitive(a.drop_first(), b.drop_first(), c.drop_first());
    }
}

proof fn lemma_lex_total(a: Seq<char>, b: Seq<char>)
    ensures
        a == b || lex_lt(a, b) || lex_lt(b, a),
    decreases a.len(),
{
    if a.len() == 0 && b.len() == 0 {
        assert(a =~= b);
    } else if a.len() > 0 && b.len() > 0 && a[0] == b[0] {
        lemma_lex_total(a.drop_first(), b.drop_first());
        if a.drop_first() == b.drop_first() {
            assert(a =~= seq![a[0]] + a.drop_first());
            assert(b =~= seq![b[0]] + b.drop_first());
        }
    }
}

/// Ordering processes by any field, in either direction, is a strict weak order.
pub proof fn process_order_is_strict_weak(by: SortBy, asc: bool)
    ensures
        strict_weak(process_order(by, asc)),
{
    let f = process_order(by, asc);
    assert forall|a: ProcessView| !#[trigger] f(a, a) by {
        lemma_lex_irreflexive(lowercase_of(a.name));
    }
    assert forall|a: ProcessView, b: ProcessView, c: ProcessView|
        #[trigger] f(a, b) && #[trigger] f(b, c) implies f(a, c) by {
        if by == SortBy::Name {
            if asc {
                lemma_lex_transitive(lowercase_of(a.name), lowercase_of(b.name), lowercase_of(c.name));
            } else {
                lemma_lex_transitive(lowercase_of(c.name), lowercase_of(b.name), lowercase_of(a.name));
            }
        }
    }
    assert forall|a: ProcessView, b: ProcessView, c: ProcessView|
        !#[trigger] f(a, b) && !#[trigger] f(b, c) implies !f(a, c) by {
        if by == SortBy::Name {
            let (la, lb, lc) = (lowercase_of(a.name), lowercase_of(b.name), lowercase_of(c.name));
            lemma_lex_total(la, lb);
            lemma_lex_total(lb, lc);
            if asc {
                if lex_lt(la, lc) {
                    if lex_lt(lb, la) {
                        lemma_lex_transitive(lb, la, lc);
                    }
                    if lex_lt(lc, lb) {
                        lemma_lex_transitive(la, lc, lb);
                    }
                }
            } else {
                if lex_lt(lc, la) {
                    if lex_lt(la, lb) {
                        lemma_lex_transitive(lc, la, lb);
                    }
                    if lex_lt(lb, lc) {
                        lemma_lex_transitive(lb, lc, la);
                    }
                }
            }
        }
    }
}

/// Sorting the process list keeps exactly the same processes, and leaves none before an earlier
/// one that it sorts strictly before (by the chosen field and direction, names compared in
/// lower case).
pub proof fn process_sort_law(s: Seq<ProcessView>, by: SortBy, asc: bool)
    ensures
        sorted_views(s, by, asc).to_multiset() == s.to_multiset(),
        ordered_by(sorted_views(s, by, asc), process_order(by, asc)),
{
    stable_sort_permutes(s, process_order(by, asc));
    process_order_is_strict_weak(by, asc);
    stable_sort_orders(s, process_order(by, asc));
}

/// The process list read from `/proc` holds every listed process once and is ordered by
/// resident memory, largest first.
pub proof fn process_listing_law(es: Seq<ProcEntry>)
    ensures
        sorted_views(entries_processes(es), SortBy::Memory, false).to_multiset()
            == entries_processes(es).to_multiset(),
        forall|i: int, j: int|
            0 <= i < j < sorted_views(entries_processes(es), SortBy::Memory, false).len() ==> (
            #[trigger] sorted_views(entries_processes(es), SortBy::Memory, false)[i]).memory_total
                >= (#[trigger] sorted_views(entries_processes(es), SortBy::Memory, false)[j]).memory_total,
{
    let s = sorted_views(entries_processes(es), SortBy::Memory, false);
    process_sort_law(entries_processes(es), SortBy::Memory, false);
    assert forall|i: int, j: int| 0 <= i < j < s.len() implies (#[trigger] s[i]).memory_total
        >= (#[trigger] s[j]).memory_total by {
        assert(!(process_order(SortBy::Memory, false))(s[j], s[i]));
    }
}

/// Whether `a` and `b` first differ at position `i`, where `a` has the smaller character.
pub open spec fn differs_lower_at(a: Seq<char>, b: Seq<char>, i: int) -> bool {
    &&& 0 <= i < a.len()
    &&& i < b.len()
    &&& a.take(i) == b.take(i)
    &&& (a[i] as int) < (b[i] as int)
}

proof fn lemma_lex_shift(a: Seq<char>, b: Seq<char>)
    requires
        a.len() > 0,
        b.len() > 0,
        a[0] == b[0],
    ensures
        (exists|i: int| differs_lower_at(a, b, i)) <==> (exists|i: int|
            differs_lower_at(a.drop_first(), b.drop_first(), i)),
        (a.len() < b.len() && b.take(a.len() as int) == a) <==> (a.drop_first().len()
            < b.drop_first().len() && b.drop_first().take(a.drop_first().len() as int)
            == a.drop_first()),
{
    let a1 = a.drop_first();
    let b1 = b.drop_first();
    if exists|i: int| differs_lower_at(a, b, i) {
        let i = choose|i: int| differs_lower_at(a, b, i);
        assert(i > 0);
        assert(a1.take(i - 1) =~= a.take(i).drop_first());
        assert(b1.take(i - 1) =~= b.take(i).drop_first());
        assert(differs_lower_at(a1, b1, i - 1));
    }
    if exists|i: int| differs_lower_at(a1, b1, i) {
        let i = choose|i: int| differs_lower_at(a1, b1, i);
        assert(a.take(i + 1) =~= seq![a[0]] + a1.take(i));
        assert(b.take(i + 1) =~= seq![b[0]] + b1.take(i));
        assert(differs_lower_at(a, b, i + 1));
    }
    if a.len() < b.len() && b.take(a.len() as int) == a {
        assert(b1.take(a1.len() as int) =~= b.take(a.len() as int).drop_first());
    }
    if a1.len() < b1.len() && b1.take(a1.len() as int) == a1 {
        assert(b.take(a.len() as int) =~= seq![b[0]] + b1.take(a1.len() as int));
        assert(a =~= seq![a[0]] + a1);
    }
}

/// The name order is the lexicographic order of strings: `a` sorts strictly before `b` exactly
/// when `a` is a proper prefix of `b`, or at the first position where they differ `a` has the
/// smaller character. So a name sorts before every longer name it begins, and, ordering by name
/// ascending, a process whose lower-case name is a proper prefix of another's goes before it.
pub proof fn name_order_law(a: Seq<char>, b: Seq<char>, x: ProcessView, y: ProcessView)
    ensures
        lex_lt(a, b) <==> (a.len() < b.len() && b.take(a.len() as int) == a) || (exists|i: int|
            differs_lower_at(a, b, i)),
        b.len() > a.len() && b.take(a.len() as int) == a ==> lex_lt(a, b) && !lex_lt(b, a),
        lowercase_of(y.name).len() > lowercase_of(x.name).len() && lowercase_of(y.name).take(
            lowercase_of(x.name).len() as int,
        ) == lowercase_of(x.name) ==> goes_before(x, y, SortBy::Name, true) && !goes_before(
            y,
            x,
            SortBy::Name,
            true,
        ),
{
    lemma_lex_characterized(a, b);
    lemma_lex_characterized(b, a);
    lemma_lex_characterized(lowercase_of(x.name), lowercase_of(y.name));
    lemma_lex_characterized(lowercase_of(y.name), lowercase_of(x.name));
    lemma_prefix_not_differs(a, b);
    lemma_prefix_not_differs(lowercase_of(x.name), lowercase_of(y.name));
}

proof fn lemma_prefix_not_differs(a: Seq<char>, b: Seq<char>)
    ensures
        b.len() > a.len() && b.take(a.len() as int) == a ==> !(exists|i: int| differs_lower_at(b, a, i)),
{
    if b.len() > a.len() && b.take(a.len() as int) == a {
        if exists|i: int| differs_lower_at(b, a, i) {
            let i = choose|i: int| differs_lower_at(b, a, i);
            assert(b[i] == b.take(a.len() as int)[i]);
        }
    }
}

proof fn lemma_lex_characterized(a: Seq<char>, b: Seq<char>)
    ensures
        lex_lt(a, b) <==> (a.len() < b.len() && b.take(a.len() as int) == a) || (exists|i: int|
            differs_lower_at(a, b, i)),
    decreases a.len(),
{
    if a.len() == 0 {
        assert(b.take(0) =~= a);
    } else if b.len() == 0 {
    } else if a[0] != b[0] {
        if (a[0] as int) < (b[0] as int) {
            assert(a.take(0) =~= b.take(0));
            assert(differs_lower_at(a, b, 0));
        } else {
            if exists|i: int| differs_lower_at(a, b, i) {
                let i = choose|i: int| differs_lower_at(a, b, i);
                if i > 0 {
                    assert(a.take(i)[0] == b.take(i)[0]);
                }
            }
        }
        if a.len() < b.len() && b.take(a.len() as int) == a {
            assert(b.take(a.len() as int)[0] == b[0]);
        }
    } else {
        lemma_lex_characterized(a.drop_first(), b.drop_first());
        lemma_lex_shift(a, b);
    }
}

} // verus!
