//! Reading the tool's memory map output, and ordering checkpoint directories.
use vstd::prelude::*;
use crate::models::memory::{perms_of, MemoryRegion, Permissions, RegionView};
use crate::num::{parse_uint, parse_uint_spec};
use crate::order::{lemma_insert_at, ordered_by, stable_sort_orders, stable_sort_permutes, stable_sorted, strict_weak};
use crate::text::{
    chars_of, ends_with, has_prefix, has_suffix, lines_of, split_lines, split_words, starts_with,
    string_from, string_views, trim, trim_of, views, words_of, lines_state, strip_cr, lemma_trim_strip_cr,
};

verus! {

/// Whether a trimmed line of a memory map listing carries no region: it is empty or a header
/// (`"PID "`, `"START"`) or a rule line (starting with `'─'`).
pub open spec fn skipped_line(l: Seq<char>) -> bool {
    l.len() == 0 || has_prefix(l, "PID "@) || has_prefix(l, "START"@) || has_prefix(l, seq!['\u{2500}'])
}

/// `s` read as a hexadecimal `u64`, or 0 when it is not one.
pub open spec fn hex_or_zero(s: Seq<char>) -> u64 {
    match parse_uint_spec(s, 16, u64::MAX as nat) {
        Some(v) => v as u64,
        None => 0,
    }
}

/// The words joined with single spaces.
pub open spec fn join_words(ws: Seq<Seq<char>>) -> Seq<char>
    decreases ws.len(),
{
    if ws.len() == 0 {
        seq![]
    } else if ws.len() == 1 {
        ws[0]
    } else {
        join_words(ws.drop_last()) + seq![' '] + ws.last()
    }
}

/// Where the path starts among the fields of a region line: after a size field that ends in
/// `K`, `M` or `G`, else at the fourth field.
pub open spec fn path_index(parts: Seq<Seq<char>>) -> int {
    if has_suffix(parts[3], seq!['K']) || has_suffix(parts[3], seq!['M']) || has_suffix(
        parts[3],
        seq!['G'],
    ) {
        4
    } else {
        3
    }
}

/// The region a line of the listing describes: a line with at least five fields, giving the
/// start and end addresses in hexadecimal (0 when unreadable), the permission column and, from
/// the path field on, the path.
pub open spec fn region_of_line(line: Seq<char>) -> Option<RegionView> {
    let l = trim_of(line);
    if skipped_line(l) {
        None
    } else {
        let parts = words_of(l);
        if parts.len() < 5 {
            None
        } else {
            Some(
                RegionView {
                    start: hex_or_zero(parts[0]),
                    end: hex_or_zero(parts[1]),
                    perms: perms_of(parts[2]),
                    offset: 0,
                    device: seq![],
                    inode: 0,
                    path: Some(join_words(parts.skip(path_index(parts)))),
                },
            )
        }
    }
}

/// The regions that the lines describe, in order.
pub open spec fn regions_of(ls: Seq<Seq<char>>) -> Seq<RegionView>
    decreases ls.len(),
{
    if ls.len() == 0 {
        seq![]
    } else {
        let rest = regions_of(ls.drop_last());
        match region_of_line(ls.last()) {
            Some(r) => rest.push(r),
            None => rest,
        }
    }
}

/// The abstract values of a sequence of regions.
pub open spec fn region_views(v: Seq<MemoryRegion>) -> Seq<RegionView> {
    v.map_values(|r: MemoryRegion| r@)
}

/// Joins words with single spaces.
pub fn join_with_spaces(ws: &Vec<Vec<char>>, from: usize) -> (r: Vec<char>)
    requires
        from <= ws@.len(),
    ensures
        r@ == join_words(views(ws@).skip(from as int)),
{
    let mut r: Vec<char> = Vec::new();
    let mut i = from;
    while i < ws.len()
        invariant
            from <= i <= ws@.len(),
            r@ == join_words(views(ws@).subrange(from as int, i as int)),
        decreases ws@.len() - i,
    {
        let ghost before = r@;
        if i > from {
            r.push(' ');
        }
        let w = &ws[i];
        for k in 0..w.len()
            invariant
                r@ == (if i > from {
                    before.push(' ')
                } else {
                    before
                }) + w@.take(k as int),
        {
            r.push(w[k]);
            proof {
                assert(w@.take(k as int + 1) =~= w@.take(k as int).push(w@[k as int]));
            }
        }
        proof {
            assert(w@.take(w@.len() as int) =~= w@);
            let s = views(ws@).subrange(from as int, i + 1);
            assert(s.drop_last() =~= views(ws@).subrange(from as int, i as int));
            assert(s.last() == w@);
            if i > from {
                assert(r@ =~= before + seq![' '] + w@);
            } else {
                assert(s.len() == 1);
                assert(before =~= seq![]);
                assert(r@ =~= w@);
            }
        }
        i = i + 1;
    }
    proof {
        assert(views(ws@).subrange(from as int, ws@.len() as int) =~= views(ws@).skip(from as int));
    }
    r
}

/// Reads one line of the listing.
pub fn parse_region_line(line: &Vec<char>) -> (r: Option<MemoryRegion>)
    ensures
        match r {
            Some(m) => region_of_line(line@) == Some(m@),
            None => region_of_line(line@) is None,
        },
{
    let l = trim(line);
    let pid_head = chars_of("PID ");
    let start_head = chars_of("START");
    let rule = vec!['\u{2500}'];
    proof {
        assert(rule@ =~= seq!['\u{2500}']);
    }
    if l.len() == 0 || starts_with(&l, &pid_head) || starts_with(&l, &start_head) || starts_with(
        &l,
        &rule,
    ) {
        return None;
    }
    let parts = split_words(&l);
    if parts.len() < 5 {
        return None;
    }
    let start = match parse_uint(&parts[0], 16, u64::MAX) {
        Some(v) => v,
        None => 0,
    };
    let end = match parse_uint(&parts[1], 16, u64::MAX) {
        Some(v) => v,
        None => 0,
    };
    let perms = Permissions::parse(&parts[2]);
    let k = vec!['K'];
    let m = vec!['M'];
    let g = vec!['G'];
    proof {
        assert(k@ =~= seq!['K']);
        assert(m@ =~= seq!['M']);
        assert(g@ =~= seq!['G']);
        assert(views(parts@)[3] == parts@[3]@);
    }
    let idx: usize = if ends_with(&parts[3], &k) || ends_with(&parts[3], &m) || ends_with(
        &parts[3],
        &g,
    ) {
        4
    } else {
        3
    };
    let path = join_with_spaces(&parts, idx);
    proof {
        assert(views(parts@)[0] == parts@[0]@);
        assert(views(parts@)[1] == parts@[1]@);
        assert(views(parts@)[2] == parts@[2]@);
    }
    Some(
        MemoryRegion {
            start,
            end,
            perms,
            offset: 0,
            device: String::new(),
            inode: 0,
            path: Some(string_from(&path)),
        },
    )
}

/// Reads the memory map listing that the tool's `dump` command prints: one region per line that
/// carries one, in order.
pub fn parse_memory_regions(output: &str) -> (r: Vec<MemoryRegion>)
    ensures
        region_views(r@) == regions_of(lines_of(output@)),
{
    let lines = crate::text::lines_of_str(output);
    let mut regions: Vec<MemoryRegion> = Vec::new();
    for i in 0..lines.len()
        invariant
            region_views(regions@) == regions_of(views(lines@).take(i as int)),
    {
        proof {
            assert(views(lines@).take(i as int + 1).drop_last() =~= views(lines@).take(i as int));
            assert(views(lines@).take(i as int + 1).last() == lines@[i as int]@);
        }
        match parse_region_line(&lines[i]) {
            Some(m) => {
                let ghost before = regions@;
                regions.push(m);
                proof {
                    assert(region_views(regions@) =~= region_views(before).push(m@));
                }
            },
            None => {},
        }
    }
    proof {
        assert(views(lines@).take(lines@.len() as int) =~= views(lines@));
    }
    regions
}

/// What a directory entry of the checkpoint directory holds: its path, whether it is a
/// directory with both a `mem` entry and a `regs.bin` entry, and its modification time in
/// nanoseconds from the Unix epoch (negative before it; `None` when unknown).
pub struct CheckpointCandidate {
    pub path: String,
    pub is_dir: bool,
    pub has_mem: bool,
    pub has_regs: bool,
    pub modified: Option<i128>,
}

/// Whether `x` sorts strictly before `e` when listing newest first: an unknown time counts as
/// older than every known one.
pub open spec fn newer(x: Option<i128>, e: Option<i128>) -> bool {
    match (x, e) {
        (Some(_), None) => true,
        (Some(a), Some(b)) => b < a,
        _ => false,
    }
}

/// The order "newest first" on (path, time) pairs.
pub open spec fn newest_first() -> spec_fn((Seq<char>, Option<i128>), (Seq<char>, Option<i128>)) -> bool {
    |x: (Seq<char>, Option<i128>), e: (Seq<char>, Option<i128>)| newer(x.1, e.1)
}

/// The entries that are checkpoint directories, as (path, time) pairs in listing order.
pub open spec fn kept_candidates(es: Seq<CheckpointCandidate>) -> Seq<(Seq<char>, Option<i128>)>
    decreases es.len(),
{
    if es.len() == 0 {
        seq![]
    } else {
        let rest = kept_candidates(es.drop_last());
        let c = es.last();
        if c.is_dir && c.has_mem && c.has_regs {
            rest.push((c.path@, c.modified))
        } else {
            rest
        }
    }
}

/// The paths of the checkpoint directories among the entries, newest first (a stable sort).
pub open spec fn checkpoint_paths(es: Seq<CheckpointCandidate>) -> Seq<Seq<char>> {
    firsts(stable_sorted(kept_candidates(es), newest_first()))
}

/// The first components of a sequence of pairs.
pub open spec fn firsts(s: Seq<(Seq<char>, Option<i128>)>) -> Seq<Seq<char>> {
    s.map_values(|p: (Seq<char>, Option<i128>)| p.0)
}



spec fn pair_views(v: Seq<(String, Option<i128>)>) -> Seq<(Seq<char>, Option<i128>)> {
    v.map_values(|p: (String, Option<i128>)| (p.0@, p.1))
}

fn newer_exec(x: Option<i128>, e: Option<i128>) -> (r: bool)
    ensures
        r == newer(x, e),
{
    match (x, e) {
        (Some(_), None) => true,
        (Some(a), Some(b)) => b < a,
        _ => false,
    }
}

/// Picks the checkpoint directories among the entries and lists their paths newest first.
pub fn list_checkpoints(entries: &Vec<CheckpointCandidate>) -> (r: Vec<String>)
    ensures
        string_views(r@) == checkpoint_paths(entries@),
{
    let mut res: Vec<(String, Option<i128>)> = Vec::new();
    for i in 0..entries.len()
        invariant
            pair_views(res@) == stable_sorted(kept_candidates(entries@.take(i as int)), newest_first()),
    {
        proof {
            assert(entries@.take(i as int + 1).drop_last() =~= entries@.take(i as int));
            assert(entries@.take(i as int + 1).last() == entries@[i as int]);
        }
        let c = &entries[i];
        if c.is_dir && c.has_mem && c.has_regs {
            let x = (c.path.clone(), c.modified);
            let mut j = res.len();
            while j > 0 && newer_exec(x.1, res[j - 1].1)
                invariant
                    j <= res@.len(),
                    forall|k: int|
                        j <= k < res@.len() ==> (newest_first())((x.0@, x.1), #[trigger] pair_views(res@)[k]),
                decreases j,
            {
                j = j - 1;
            }
            let ghost before = pair_views(res@);
            let ghost xv = (x.0@, x.1);
            proof {
                lemma_insert_at(before, xv, newest_first(), j as int);
                let kt = kept_candidates(entries@.take(i as int + 1));
                assert(kt == kept_candidates(entries@.take(i as int)).push(xv));
                assert(kt.drop_last() =~= kept_candidates(entries@.take(i as int)));
            }
            res.insert(j, x);
            proof {
                assert(pair_views(res@) =~= before.take(j as int).push(xv) + before.skip(j as int));
            }
        }
    }
    proof {
        assert(entries@.take(entries@.len() as int) =~= entries@);
    }
    let mut r: Vec<String> = Vec::new();
    for k in 0..res.len()
        invariant
            string_views(r@) == firsts(pair_views(res@)).take(k as int),
    {
        let p = res[k].0.clone();
        let ghost before = r@;
        r.push(p);
        proof {
            assert(r@ == before.push(p));
            assert(p@ == pair_views(res@)[k as int].0);
            assert(string_views(r@) =~= string_views(before).push(p@));
            assert(string_views(r@) =~= firsts(pair_views(res@)).take(k as int + 1));
        }
    }
    proof {
        assert(firsts(pair_views(res@)).take(res@.len() as int) =~= firsts(pair_views(res@)));
    }
    r
}

/// The checkpoint listing holds every checkpoint directory once, newest first: no directory
/// comes after one with an older or unknown time.
pub proof fn checkpoint_listing_law(es: Seq<CheckpointCandidate>)
    ensures
        stable_sorted(kept_candidates(es), newest_first()).to_multiset() == kept_candidates(es).to_multiset(),
        ordered_by(stable_sorted(kept_candidates(es), newest_first()), newest_first()),
{
    let f = newest_first();
    stable_sort_permutes(kept_candidates(es), f);
    assert(strict_weak(f));
    stable_sort_orders(kept_candidates(es), f);
}

proof fn lemma_lines_state_join(a: Seq<char>, b: Seq<char>)
    ensures
        lines_state(a + seq!['\n'] + b) == (
            lines_state(a).0.push(strip_cr(lines_state(a).1)) + lines_state(b).0,
            lines_state(b).1,
        ),
    decreases b.len(),
{
    let s = a + seq!['\n'] + b;
    if b.len() == 0 {
        assert(s.drop_last() =~= a);
        assert(lines_state(a).0.push(strip_cr(lines_state(a).1)) + Seq::<Seq<char>>::empty()
            =~= lines_state(a).0.push(strip_cr(lines_state(a).1)));
    } else {
        lemma_lines_state_join(a, b.drop_last());
        assert(s.drop_last() =~= a + seq!['\n'] + b.drop_last());
        assert(s.last() == b.last());
        let l = lines_state(a).0.push(strip_cr(lines_state(a).1));
        let (lb, cb) = lines_state(b.drop_last());
        assert((l + lb).push(strip_cr(cb)) =~= l + lb.push(strip_cr(cb)));
    }
}

proof fn lemma_regions_concat(x: Seq<Seq<char>>, y: Seq<Seq<char>>)
    ensures
        regions_of(x + y) == regions_of(x) + regions_of(y),
    decreases y.len(),
{
    if y.len() == 0 {
        assert(x + y =~= x);
        assert(regions_of(x) + regions_of(y) =~= regions_of(x));
    } else {
        lemma_regions_concat(x, y.drop_last());
        assert((x + y).drop_last() =~= x + y.drop_last());
        assert((x + y).last() == y.last());
        let r = regions_of(x) + regions_of(y.drop_last());
        match region_of_line(y.last()) {
            Some(g) => {
                assert(r.push(g) =~= regions_of(x) + regions_of(y.drop_last()).push(g));
            },
            None => {},
        }
    }
}

/// The memory map of two outputs joined by a newline is the map of the first followed by the
/// map of the second: lines are read one at a time, and the newline between them only ends the
/// first output's last line.
pub proof fn parse_concat_law(a: Seq<char>, b: Seq<char>)
    ensures
        regions_of(lines_of(a + seq!['\n'] + b)) == regions_of(lines_of(a)) + regions_of(lines_of(b)),
{
    let (lsa, cura) = lines_state(a);
    let (lsb, curb) = lines_state(b);
    lemma_lines_state_join(a, b);
    let l = lsa.push(strip_cr(cura));
    if curb.len() > 0 {
        assert((l + lsb).push(curb) =~= l + lsb.push(curb));
    }
    assert(lines_of(a + seq!['\n'] + b) == l + lines_of(b));
    lemma_regions_concat(l, lines_of(b));
    lemma_trim_strip_cr(cura);
    assert(region_of_line(strip_cr(cura)) == region_of_line(cura));
    assert(l.drop_last() =~= lsa);
    if cura.len() > 0 {
        assert(lines_of(a) == lsa.push(cura));
        assert(lsa.push(cura).drop_last() =~= lsa);
    } else {
        assert(strip_cr(cura) =~= cura);
        assert(trim_of(cura) =~= Seq::<char>::empty());
    }
}

} // verus!
