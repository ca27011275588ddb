//! Narrowing the lists to what matches the search text.
use vstd::prelude::*;
use crate::foreign::{lowercase, lowercase_of};
use crate::text::{file_name, file_name_of};
use crate::models::checkpoint::{checkpoint_views, CheckpointInfo, CheckpointView};
use crate::models::memory::{perms_text, RegionView};
use crate::models::process::{process_order, process_sort_law, process_views, sorted_views, ProcessInfo, ProcessView};
use crate::order::ordered_by;
use crate::num::{decimal, hex, radix_string};
use crate::text::{chars_of, contains, contains_seq, lines_of};
use crate::ui::app::{selected_proc, sorted_state, App, AppView, Tab};
use crate::ui::command::{command_views, Command, CommandView};
use crate::wrapper::parser::{parse_memory_regions, region_views, regions_of};

verus! {

/// The search text as it is matched: lower case.
pub open spec fn query_of(v: AppView) -> Seq<char> {
    lowercase_of(v.search_query)
}

/// The work a search needs on the current tab: none for an empty search; otherwise a fresh
/// process listing, the selected process's memory map (when a process is selected), or a fresh
/// checkpoint listing.
pub open spec fn search_request(v: AppView) -> Seq<CommandView> {
    if query_of(v).len() == 0 {
        seq![]
    } else {
        match v.tab {
            Tab::Processes => seq![CommandView::SearchProcesses],
            Tab::Memory => match selected_proc(v) {
                Some(p) => seq![CommandView::SearchMemory { pid: p.pid }],
                None => seq![],
            },
            Tab::Checkpoints => seq![CommandView::SearchCheckpoints],
        }
    }
}

/// The work the current search needs.
pub fn apply_search_filter(app: &App) -> (r: Vec<Command>)
    ensures
        command_views(r@) == search_request(app@),
{
    let query = lowercase(app.search_query.as_str());
    let mut r: Vec<Command> = Vec::new();
    if query.as_str().is_empty() {
        return r;
    }
    match app.tab {
        Tab::Processes => r.push(Command::SearchProcesses),
        Tab::Memory => match app.selected_process() {
            Some(p) => r.push(Command::SearchMemory { pid: p.pid }),
            None => {},
        },
        Tab::Checkpoints => r.push(Command::SearchCheckpoints),
    }
    proof {
        assert(command_views(r@) =~= search_request(app@));
    }
    r
}

/// Whether a process matches the search text `q`: its lower-cased command line or its
/// decimal id contains `q`.
pub open spec fn process_matches(p: ProcessView, q: Seq<char>) -> bool {
    contains_seq(lowercase_of(p.name), q) || contains_seq(decimal(p.pid as nat), q)
}

/// The processes that match `q`, in order.
pub open spec fn matching_processes(ps: Seq<ProcessView>, q: Seq<char>) -> Seq<ProcessView>
    decreases ps.len(),
{
    if ps.len() == 0 {
        seq![]
    } else {
        let rest = matching_processes(ps.drop_last(), q);
        if process_matches(ps.last(), q) {
            rest.push(ps.last())
        } else {
            rest
        }
    }
}

/// The state after a process search: for a non-empty search and a successful listing, the
/// matching processes, cursor at the top, ordered as chosen; otherwise unchanged.
pub open spec fn after_process_search(v: AppView, listed: Result<Seq<ProcessView>, Seq<char>>) -> AppView {
    if query_of(v).len() == 0 {
        v
    } else {
        match listed {
            Ok(all) => sorted_state(
                AppView {
                    processes: matching_processes(all, query_of(v)),
                    process_scroll: 0,
                    ..v
                },
            ),
            Err(_) => v,
        }
    }
}

/// Shows the processes of a fresh listing that match the search.
pub fn filter_processes_by_search(app: &mut App, listed: Result<Vec<ProcessInfo>, String>)
    ensures
        final(app)@ == after_process_search(
            old(app)@,
            match listed {
                Ok(ps) => Ok(process_views(ps@)),
                Err(e) => Err(e@),
            },
        ),
{
    let query_s = lowercase(app.search_query.as_str());
    if query_s.as_str().is_empty() {
        return;
    }
    let all = match listed {
        Ok(p) => p,
        Err(_) => {
            return;
        },
    };
    let q = chars_of(query_s.as_str());
    let mut kept: Vec<ProcessInfo> = Vec::new();
    for i in 0..all.len()
        invariant
            q@ == query_of(old(app)@),
            process_views(kept@) == matching_processes(process_views(all@).take(i as int), q@),
    {
        let p = &all[i];
        let name_low = lowercase(p.name.as_str());
        let name_chars = chars_of(name_low.as_str());
        let pid_chars = radix_string(p.pid as u64, 10);
        proof {
            let pv = process_views(all@);
            assert(pv.take(i as int + 1).drop_last() =~= pv.take(i as int));
            assert(pv.take(i as int + 1).last() == p@);
        }
        if contains(&name_chars, &q) || contains(&pid_chars, &q) {
            let ghost before = kept@;
            kept.push(p.clone());
            proof {
                assert(process_views(kept@) =~= process_views(before).push(p@));
            }
        }
    }
    proof {
        assert(process_views(all@).take(all@.len() as int) =~= process_views(all@));
    }
    app.processes = kept;
    app.process_scroll = 0;
    app.sort_processes();
}

/// Whether a region matches the search text `q`: its lower-cased path (empty when it has
/// none), its start address in hexadecimal, or its lower-cased permission text contains `q`.
pub open spec fn region_matches(r: RegionView, q: Seq<char>) -> bool {
    let path = match r.path {
        Some(p) => p,
        None => seq![],
    };
    contains_seq(lowercase_of(path), q) || contains_seq(hex(r.start as nat), q) || contains_seq(
        lowercase_of(perms_text(r.perms)),
        q,
    )
}

/// The regions that match `q`, in order.
pub open spec fn matching_regions(rs: Seq<RegionView>, q: Seq<char>) -> Seq<RegionView>
    decreases rs.len(),
{
    if rs.len() == 0 {
        seq![]
    } else {
        let rest = matching_regions(rs.drop_last(), q);
        if region_matches(rs.last(), q) {
            rest.push(rs.last())
        } else {
            rest
        }
    }
}

/// The state after a memory search: for a non-empty search and a memory map that could be
/// read, the matching regions of that map, cursor at the top; otherwise unchanged.
pub open spec fn after_memory_search(v: AppView, dumped: Result<Seq<char>, Seq<char>>) -> AppView {
    if query_of(v).len() == 0 {
        v
    } else {
        match dumped {
            Ok(out) => AppView {
                memory_regions: matching_regions(regions_of(lines_of(out)), query_of(v)),
                memory_scroll: 0,
                ..v
            },
            Err(_) => v,
        }
    }
}

/// Shows the regions of a freshly read memory map that match the search.
pub fn filter_memory_regions(app: &mut App, dumped: Result<String, String>)
    ensures
        final(app)@ == after_memory_search(old(app)@, crate::ui::effects::result_view(dumped)),
{
    let query_s = lowercase(app.search_query.as_str());
    if query_s.as_str().is_empty() {
        return;
    }
    let output = match dumped {
        Ok(o) => o,
        Err(_) => {
            return;
        },
    };
    let q = chars_of(query_s.as_str());
    let all = parse_memory_regions(output.as_str());
    let mut kept: Vec<crate::models::memory::MemoryRegion> = Vec::new();
    for i in 0..all.len()
        invariant
            q@ == query_of(old(app)@),
            region_views(kept@) == matching_regions(region_views(all@).take(i as int), q@),
    {
        let r = &all[i];
        let path_low = match &r.path {
            Some(p) => lowercase(p.as_str()),
            None => lowercase(""),
        };
        let path_chars = chars_of(path_low.as_str());
        let addr_chars = radix_string(r.start, 16);
        let perms_low = lowercase(r.perms.as_string().as_str());
        let perms_chars = chars_of(perms_low.as_str());
        proof {
            let rv = region_views(all@);
            assert(rv.take(i as int + 1).drop_last() =~= rv.take(i as int));
            assert(rv.take(i as int + 1).last() == r@);
            reveal_strlit("");
            assert(""@ =~= Seq::<char>::empty());
        }
        if contains(&path_chars, &q) || contains(&addr_chars, &q) || contains(&perms_chars, &q) {
            let ghost before = kept@;
            kept.push(r.clone());
            proof {
                assert(region_views(kept@) =~= region_views(before).push(r@));
            }
        }
    }
    proof {
        assert(region_views(all@).take(all@.len() as int) =~= region_views(all@));
    }
    app.memory_regions = kept;
    app.memory_scroll = 0;
}

/// Whether a checkpoint matches the search text `q`: the lower-cased file name of its
/// directory (empty when it has none) contains `q`.
pub open spec fn checkpoint_matches(c: CheckpointView, q: Seq<char>) -> bool {
    let name = match file_name_of(c.path) {
        Some(n) => lowercase_of(n),
        None => seq![],
    };
    contains_seq(name, q)
}

/// The checkpoints that match `q`, in order.
pub open spec fn matching_checkpoints(cs: Seq<CheckpointView>, q: Seq<char>) -> Seq<CheckpointView>
    decreases cs.len(),
{
    if cs.len() == 0 {
        seq![]
    } else {
        let rest = matching_checkpoints(cs.drop_last(), q);
        if checkpoint_matches(cs.last(), q) {
            rest.push(cs.last())
        } else {
            rest
        }
    }
}

/// The state after a checkpoint search: for a non-empty search, the matching checkpoints of
/// the fresh listing, cursor at the top; otherwise unchanged.
pub open spec fn after_checkpoint_search(v: AppView, found: Seq<CheckpointView>) -> AppView {
    if query_of(v).len() == 0 {
        v
    } else {
        AppView {
            checkpoints: matching_checkpoints(found, query_of(v)),
            checkpoint_scroll: 0,
            ..v
        }
    }
}

/// Shows the checkpoints of a fresh listing that match the search.
pub fn filter_checkpoints(app: &mut App, found: Vec<CheckpointInfo>)
    ensures
        final(app)@ == after_checkpoint_search(old(app)@, checkpoint_views(found@)),
{
    let query_s = lowercase(app.search_query.as_str());
    if query_s.as_str().is_empty() {
        return;
    }
    let q = chars_of(query_s.as_str());
    let mut kept: Vec<CheckpointInfo> = Vec::new();
    for i in 0..found.len()
        invariant
            q@ == query_of(old(app)@),
            checkpoint_views(kept@) == matching_checkpoints(checkpoint_views(found@).take(i as int), q@),
    {
        let c = &found[i];
        let name_chars = match file_name(c.path.as_str()) {
            Some(n) => {
                let low = lowercase(n.as_str());
                chars_of(low.as_str())
            },
            None => Vec::new(),
        };
        proof {
            let cv = checkpoint_views(found@);
            assert(cv.take(i as int + 1).drop_last() =~= cv.take(i as int));
            assert(cv.take(i as int + 1).last() == c@);
        }
        if contains(&name_chars, &q) {
            let ghost before = kept@;
            kept.push(c.clone());
            proof {
                assert(checkpoint_views(kept@) =~= checkpoint_views(before).push(c@));
            }
        }
    }
    proof {
        assert(checkpoint_views(found@).take(found@.len() as int) =~= checkpoint_views(found@));
    }
    app.checkpoints = kept;
    app.checkpoint_scroll = 0;
}

proof fn lemma_push_contains<T>(s: Seq<T>, x: T, y: T)
    ensures
        s.push(x).contains(y) <==> s.contains(y) || x == y,
{
    if s.push(x).contains(y) {
        let k = choose|k: int| 0 <= k < s.push(x).len() && s.push(x)[k] == y;
        if k < s.len() {
            assert(s[k] == y);
        }
    }
    if s.contains(y) {
        let k = choose|k: int| 0 <= k < s.len() && s[k] == y;
        assert(s.push(x)[k] == y);
    }
    if x == y {
        assert(s.push(x)[s.len() as int] == y);
    }
}

proof fn lemma_matching_processes(ps: Seq<ProcessView>, q: Seq<char>)
    ensures
        forall|p: ProcessView|
            #[trigger] matching_processes(ps, q).contains(p) <==> ps.contains(p) && process_matches(p, q),
    decreases ps.len(),
{
    if ps.len() > 0 {
        let init = ps.drop_last();
        lemma_matching_processes(init, q);
        assert(ps =~= init.push(ps.last()));
        assert forall|p: ProcessView|
            #[trigger] matching_processes(ps, q).contains(p) <==> ps.contains(p) && process_matches(p, q) by {
            let rest = matching_processes(init, q);
            assert(rest.contains(p) <==> init.contains(p) && process_matches(p, q));
            lemma_push_contains(init, ps.last(), p);
            lemma_push_contains(rest, ps.last(), p);
        }
    }
}

proof fn lemma_matching_regions(rs: Seq<RegionView>, q: Seq<char>)
    ensures
        forall|r: RegionView|
            #[trigger] matching_regions(rs, q).contains(r) <==> rs.contains(r) && region_matches(r, q),
    decreases rs.len(),
{
    if rs.len() > 0 {
        let init = rs.drop_last();
        lemma_matching_regions(init, q);
        assert(rs =~= init.push(rs.last()));
        assert forall|r: RegionView|
            #[trigger] matching_regions(rs, q).contains(r) <==> rs.contains(r) && region_matches(r, q) by {
            let rest = matching_regions(init, q);
            assert(rest.contains(r) <==> init.contains(r) && region_matches(r, q));
            lemma_push_contains(init, rs.last(), r);
            lemma_push_contains(rest, rs.last(), r);
        }
    }
}

proof fn lemma_matching_checkpoints(cs: Seq<CheckpointView>, q: Seq<char>)
    ensures
        forall|c: CheckpointView|
            #[trigger] matching_checkpoints(cs, q).contains(c) <==> cs.contains(c) && checkpoint_matches(c, q),
    decreases cs.len(),
{
    if cs.len() > 0 {
        let init = cs.drop_last();
        lemma_matching_checkpoints(init, q);
        assert(cs =~= init.push(cs.last()));
        assert forall|c: CheckpointView|
            #[trigger] matching_checkpoints(cs, q).contains(c) <==> cs.contains(c) && checkpoint_matches(c, q) by {
            let rest = matching_checkpoints(init, q);
            assert(rest.contains(c) <==> init.contains(c) && checkpoint_matches(c, q));
            lemma_push_contains(init, cs.last(), c);
            lemma_push_contains(rest, cs.last(), c);
        }
    }
}

/// A non-empty search shows exactly what matches it: on the process tab the listed processes
/// that match, each as often as it was listed and ordered as chosen; on the memory tab the
/// regions of the map that match; on the checkpoint tab the listed checkpoints that match.
pub proof fn search_law(
    v: AppView,
    all: Seq<ProcessView>,
    out: Seq<char>,
    found: Seq<CheckpointView>,
)
    requires
        query_of(v).len() > 0,
    ensures
        after_process_search(v, Ok(all)).processes.to_multiset() == matching_processes(
            all,
            query_of(v),
        ).to_multiset(),
        ordered_by(after_process_search(v, Ok(all)).processes, process_order(v.sort_by, v.sort_ascending)),
        forall|p: ProcessView|
            #[trigger] after_process_search(v, Ok(all)).processes.contains(p) <==> all.contains(p)
                && process_matches(p, query_of(v)),
        forall|r: RegionView|
            #[trigger] after_memory_search(v, Ok(out)).memory_regions.contains(r) <==> regions_of(
                lines_of(out),
            ).contains(r) && region_matches(r, query_of(v)),
        forall|c: CheckpointView|
            #[trigger] after_checkpoint_search(v, found).checkpoints.contains(c) <==> found.contains(c)
                && checkpoint_matches(c, query_of(v)),
{
    let q = query_of(v);
    let m = matching_processes(all, q);
    process_sort_law(m, v.sort_by, v.sort_ascending);
    lemma_matching_processes(all, q);
    lemma_matching_regions(regions_of(lines_of(out)), q);
    lemma_matching_checkpoints(found, q);
    let shown = sorted_views(m, v.sort_by, v.sort_ascending);
    assert(after_process_search(v, Ok(all)).processes == shown);
    shown.to_multiset_ensures();
    m.to_multiset_ensures();
    assert forall|p: ProcessView| #[trigger] shown.contains(p) <==> m.contains(p) by {
        assert(shown.to_multiset().count(p) == m.to_multiset().count(p));
    }
}

} // verus!
