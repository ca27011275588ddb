//! What the screen shows, as text: table rows, titles, the status bar and panel lines. Drawing
//! them is left to the terminal front end; every word and number on screen is decided here.
use vstd::prelude::*;
use vstd::utf8::{decode_utf8, encode_utf8, is_char_boundary};
use crate::models::checkpoint::{age_text, len_total, CheckpointInfo, CheckpointView, MemEntry};
use crate::models::memory::{perms_text, size_text, span_len, MemoryRegion, RegionView};
use crate::models::process::{ProcessInfo, ProcessState, ProcessView};
use crate::num::{decimal, hex, pad_left, pad_left_chars, pad_right, pad_right_chars, radix_string};
use crate::foreign::{path_debug_text, lowercase, lowercase_of};
use crate::text::{
    chars_of, contains, contains_seq, has_prefix, lines_of, lines_of_str, starts_with, string_from, views,
};
use crate::ui::keys::{min_of, sat_sub};
use crate::ui::app::{selected_ckpt, selected_proc, App, AppView, Focus, Tab};
use crate::ui::keys::{checkpoint_label, region_label};
use crate::wrapper::runner::decimal_string;

verus! {

/// `s` cut after its first `keep` bytes and followed by `"..."` when its UTF-8 form is longer
/// than `max` bytes; otherwise `s` itself.
pub open spec fn shortened_text(s: Seq<char>, max: nat, keep: nat) -> Seq<char> {
    if encode_utf8(s).len() > max {
        decode_utf8(encode_utf8(s).take(keep as int)) + "..."@
    } else {
        s
    }
}

/// Whether `s` can be shortened so: no cut is needed, or byte `keep` starts a character.
pub open spec fn cut_allowed(s: Seq<char>, max: nat, keep: nat) -> bool {
    encode_utf8(s).len() > max ==> is_char_boundary(encode_utf8(s), keep as int)
}

/// Shortens a text that is too long for its column.
pub fn shortened(s: &str, max: usize, keep: usize) -> (r: String)
    requires
        keep <= max,
        cut_allowed(s@, max as nat, keep as nat),
    ensures
        r@ == shortened_text(s@, max as nat, keep as nat),
{
    let bytes = s.as_bytes().len();
    if bytes > max {
        let (head, _tail) = s.split_at(keep);
        proof {
            vstd::utf8::encode_utf8_decode_utf8(head@);
            assert(encode_utf8(s@).take(keep as int) =~= encode_utf8(s@).subrange(0, keep as int));
        }
        let mut r = head.to_owned();
        r.append("...");
        proof {
            reveal_strlit("...");
        }
        r
    } else {
        s.to_owned()
    }
}

/// `s` right-aligned in `width` characters, as `{:>width}` writes it.
pub fn align_right(s: &str, width: usize) -> (r: String)
    ensures
        r@ == pad_left(s@, width as nat, ' '),
{
    let v = chars_of(s);
    let p = pad_left_chars(&v, width, ' ');
    string_from(&p)
}

/// `s` left-aligned in `width` characters, as `{:<width}` writes it.
pub fn align_left(s: &str, width: usize) -> (r: String)
    ensures
        r@ == pad_right(s@, width as nat, ' '),
{
    let v = chars_of(s);
    let p = pad_right_chars(&v, width, ' ');
    string_from(&p)
}

/// The first cell of a row: an arrow on the selected row.
pub open spec fn marker(selected: bool) -> Seq<char> {
    if selected {
        seq![' ', '\u{25b6}']
    } else {
        seq![' ', ' ']
    }
}

fn marker_text(selected: bool) -> (r: String)
    ensures
        r@ == marker(selected),
{
    let mut r = String::new();
    r.push(' ');
    r.push(if selected { '\u{25b6}' } else { ' ' });
    proof {
        assert(r@ =~= marker(selected));
    }
    r
}

/// A state's name.
pub open spec fn state_text(s: ProcessState) -> Seq<char> {
    match s {
        ProcessState::Running => "Running"@,
        ProcessState::Sleeping => "Sleeping"@,
        ProcessState::Stopped => "Stopped"@,
        ProcessState::Zombie => "Zombie"@,
        ProcessState::Unknown => "Unknown"@,
    }
}

/// The name of a process state.
pub fn state_name(s: ProcessState) -> (r: &'static str)
    ensures
        r@ == state_text(s),
{
    match s {
        ProcessState::Running => "Running",
        ProcessState::Sleeping => "Sleeping",
        ProcessState::Stopped => "Stopped",
        ProcessState::Zombie => "Zombie",
        ProcessState::Unknown => "Unknown",
    }
}

/// The cells of a process row: marker, id, command line (shortened to 24 bytes), memory,
/// threads and state, each aligned in its column.
pub open spec fn process_row(p: ProcessView, selected: bool) -> Seq<Seq<char>> {
    seq![
        marker(selected),
        pad_left(decimal(p.pid as nat), 5, ' '),
        pad_right(shortened_text(p.name, 24, 21), 26, ' '),
        pad_left(size_text(p.memory_total), 10, ' '),
        pad_left(decimal(p.threads as nat), 8, ' '),
        state_text(p.state),
    ]
}

/// The cells of a process row.
pub fn process_cells(p: &ProcessInfo, selected: bool) -> (r: Vec<String>)
    requires
        cut_allowed(p.name@, 24, 21),
    ensures
        crate::text::string_views(r@) == process_row(p@, selected),
{
    let mut r: Vec<String> = Vec::new();
    r.push(marker_text(selected));
    let pid = string_from(&radix_string(p.pid as u64, 10));
    r.push(align_right(pid.as_str(), 5));
    let name = shortened(p.name.as_str(), 24, 21);
    r.push(align_left(name.as_str(), 26));
    let size = MemoryRegion::format_size(p.memory_total);
    r.push(align_right(size.as_str(), 10));
    let threads = string_from(&radix_string(p.threads as u64, 10));
    r.push(align_right(threads.as_str(), 8));
    let st = state_name(p.state);
    r.push(st.to_owned());
    proof {
        assert(crate::text::string_views(r@) =~= process_row(p@, selected));
    }
    r
}

/// An address as `0x` and sixteen hexadecimal digits.
pub open spec fn wide_addr(a: u64) -> Seq<char> {
    seq!['0', 'x'] + pad_left(hex(a as nat), 16, '0')
}

fn wide_addr_text(a: u64) -> (r: String)
    ensures
        r@ == wide_addr(a),
{
    let digits = pad_left_chars(&radix_string(a, 16), 16, '0');
    let mut r = String::new();
    r.push('0');
    r.push('x');
    crate::text::push_chars(&mut r, &digits);
    proof {
        assert(r@ =~= wide_addr(a));
    }
    r
}

/// The cells of a memory row: marker, start and end, permissions, size, and the path
/// (`"[anon]"` when none) shortened to 20 bytes.
pub open spec fn memory_row(r: RegionView, selected: bool) -> Seq<Seq<char>> {
    seq![
        marker(selected),
        wide_addr(r.start),
        wide_addr(r.end),
        perms_text(r.perms),
        pad_left(size_text(span_len(r.start, r.end)), 8, ' '),
        shortened_text(region_label(r), 20, 17),
    ]
}

/// The cells of a memory row.
pub fn memory_cells(m: &MemoryRegion, selected: bool) -> (r: Vec<String>)
    requires
        cut_allowed(region_label(m@), 20, 17),
    ensures
        crate::text::string_views(r@) == memory_row(m@, selected),
{
    let mut r: Vec<String> = Vec::new();
    r.push(marker_text(selected));
    r.push(wide_addr_text(m.start));
    r.push(wide_addr_text(m.end));
    r.push(m.perms.as_string());
    let size = m.human_size();
    r.push(align_right(size.as_str(), 8));
    let label = match &m.path {
        Some(p) => p.clone(),
        None => String::from_str("[anon]"),
    };
    proof {
        reveal_strlit("[anon]");
    }
    r.push(shortened(label.as_str(), 20, 17));
    proof {
        assert(crate::text::string_views(r@) =~= memory_row(m@, selected));
    }
    r
}

/// The cells of a checkpoint row at time `now`: marker, directory name, process id, age,
/// region count and size.
pub open spec fn checkpoint_row(c: CheckpointView, selected: bool, now: u64) -> Seq<Seq<char>> {
    seq![
        marker(selected),
        pad_right(checkpoint_label(c), 24, ' '),
        pad_left(decimal(c.pid as nat), 5, ' '),
        pad_left(age_text(c.created, now), 12, ' '),
        pad_left(decimal(c.regions as nat), 6, ' '),
        size_text(c.size_bytes),
    ]
}

/// The cells of a checkpoint row at time `now` (seconds since the epoch).
pub fn checkpoint_cells(c: &CheckpointInfo, selected: bool, now: u64) -> (r: Vec<String>)
    ensures
        crate::text::string_views(r@) == checkpoint_row(c@, selected, now),
{
    let mut r: Vec<String> = Vec::new();
    r.push(marker_text(selected));
    let name = match crate::text::file_name(c.path.as_str()) {
        Some(n) => n,
        None => String::new(),
    };
    r.push(align_left(name.as_str(), 24));
    let pid = string_from(&radix_string(c.pid as u64, 10));
    r.push(align_right(pid.as_str(), 5));
    let age = c.age_string_at(now);
    r.push(align_right(age.as_str(), 12));
    let regions = string_from(&radix_string(c.regions as u64, 10));
    r.push(align_right(regions.as_str(), 6));
    r.push(c.human_size());
    proof {
        assert(crate::text::string_views(r@) =~= checkpoint_row(c@, selected, now));
    }
    r
}

/// A solid dot when something is selected, a hollow one otherwise.
pub open spec fn dot(filled: bool) -> char {
    if filled {
        '\u{25cf}'
    } else {
        '\u{25cb}'
    }
}

/// The header's right side: the selected process, or that there is none.
pub open spec fn header_text(v: AppView) -> Seq<char> {
    match selected_proc(v) {
        Some(p) => seq![' ', dot(true)] + " PID: "@ + decimal(p.pid as nat) + "  "@ + p.name,
        None => seq![' ', dot(false)] + " No process selected "@,
    }
}

/// The header's right side.
pub fn header_info(app: &App) -> (r: String)
    ensures
        r@ == header_text(app@),
{
    let mut r = String::new();
    r.push(' ');
    match app.selected_process() {
        Some(p) => {
            r.push('\u{25cf}');
            r.append(" PID: ");
            r.append(decimal_string(p.pid as u64).as_str());
            r.append("  ");
            r.append(p.name.as_str());
        },
        None => {
            r.push('\u{25cb}');
            r.append(" No process selected ");
        },
    }
    proof {
        reveal_strlit(" PID: ");
        reveal_strlit("  ");
        reveal_strlit(" No process selected ");
        assert(r@ =~= header_text(app@));
    }
    r
}

/// The title of the memory list: the selected process's name and id, or `" Memory Map "`.
pub open spec fn memory_title(v: AppView) -> Seq<char> {
    match selected_proc(v) {
        Some(p) => seq![' ', '\u{232c}'] + " Memory: "@ + p.name + " ("@ + decimal(p.pid as nat) + ") "@,
        None => seq![' ', '\u{232c}'] + " Memory Map "@,
    }
}

/// The title of the memory list.
pub fn memory_list_title(app: &App) -> (r: String)
    ensures
        r@ == memory_title(app@),
{
    let mut r = String::new();
    r.push(' ');
    r.push('\u{232c}');
    match app.selected_process() {
        Some(p) => {
            r.append(" Memory: ");
            r.append(p.name.as_str());
            r.append(" (");
            r.append(decimal_string(p.pid as u64).as_str());
            r.append(") ");
        },
        None => {
            r.append(" Memory Map ");
        },
    }
    proof {
        reveal_strlit(" Memory: ");
        reveal_strlit(" (");
        reveal_strlit(") ");
        reveal_strlit(" Memory Map ");
        assert(r@ =~= memory_title(app@));
    }
    r
}

/// The title of the output panel: the hex view (with the hex search while one is typed), or
/// the tab's details.
pub open spec fn output_title_text(v: AppView) -> Seq<char> {
    let mark = seq![' ', '\u{25c8}'];
    if v.show_hex_view {
        if v.is_hex_searching {
            mark + " Hex Dump ["@ + v.hex_search + "] "@
        } else {
            mark + " Hex Dump "@
        }
    } else {
        match v.tab {
            Tab::Checkpoints => mark + " Checkpoint Info "@,
            Tab::Memory => mark + " Memory Map "@,
            Tab::Processes => mark + " Process Info "@,
        }
    }
}

/// The title of the output panel.
pub fn output_title(app: &App) -> (r: String)
    ensures
        r@ == output_title_text(app@),
{
    let mut r = String::new();
    r.push(' ');
    r.push('\u{25c8}');
    if app.show_hex_view {
        if app.is_hex_searching {
            r.append(" Hex Dump [");
            r.append(app.hex_search.as_str());
            r.append("] ");
        } else {
            r.append(" Hex Dump ");
        }
    } else {
        match app.tab {
            Tab::Checkpoints => r.append(" Checkpoint Info "),
            Tab::Memory => r.append(" Memory Map "),
            Tab::Processes => r.append(" Process Info "),
        }
    }
    proof {
        reveal_strlit(" Hex Dump [");
        reveal_strlit("] ");
        reveal_strlit(" Hex Dump ");
        reveal_strlit(" Checkpoint Info ");
        reveal_strlit(" Memory Map ");
        reveal_strlit(" Process Info ");
        assert(r@ =~= output_title_text(app@));
    }
    r
}

/// How the middle of the status bar is coloured.
#[derive(Debug, Clone, Copy, PartialEq, Eq, Structural)]
pub enum MessageKind {
    Error,
    Warning,
    Mode,
}

/// The three parts of the status bar, and how the middle one is coloured.
pub struct StatusBar {
    pub left: String,
    pub center: String,
    pub kind: MessageKind,
    pub help: String,
}

/// The left part of the status bar: whether a process is selected and its id (or `None`).
pub open spec fn status_left(v: AppView) -> Seq<char> {
    let pid = match selected_proc(v) {
        Some(p) => decimal(p.pid as nat),
        None => "None"@,
    };
    seq![' ', '\u{2318}'] + " ckptmini "@ + seq![dot(selected_proc(v) is Some)] + "  PID: "@ + pid + " "@
}

/// The middle of the status bar: the message, or the focus as `[LIST]` or `[VIEW]`.
pub open spec fn status_center(v: AppView) -> (Seq<char>, MessageKind) {
    match v.status_message {
        Some(m) => (
            " "@ + m + " "@,
            if v.status_is_error {
                MessageKind::Error
            } else {
                MessageKind::Warning
            },
        ),
        None => (
            " "@ + (match v.focus {
                Focus::List => "[LIST]"@,
                Focus::Output => "[VIEW]"@,
            }) + " "@,
            MessageKind::Mode,
        ),
    }
}

/// The right part of the status bar.
pub open spec fn status_help(v: AppView) -> Seq<char> {
    if v.show_help {
        " Press any key "@
    } else {
        " ?:help  q:quit  Tab:switch  Space:focus "@
    }
}

/// The status bar.
pub fn status_bar(app: &App) -> (r: StatusBar)
    ensures
        r.left@ == status_left(app@),
        (r.center@, r.kind) == status_center(app@),
        r.help@ == status_help(app@),
{
    let mut left = String::new();
    left.push(' ');
    left.push('\u{2318}');
    left.append(" ckptmini ");
    let pid = match app.selected_process() {
        Some(p) => {
            left.push('\u{25cf}');
            decimal_string(p.pid as u64)
        },
        None => {
            left.push('\u{25cb}');
            String::from_str("None")
        },
    };
    left.append("  PID: ");
    left.append(pid.as_str());
    left.append(" ");
    let mut center = String::from_str(" ");
    let kind = match &app.status_message {
        Some(m) => {
            center.append(m.as_str());
            if app.status_is_error {
                MessageKind::Error
            } else {
                MessageKind::Warning
            }
        },
        None => {
            match app.focus {
                Focus::List => center.append("[LIST]"),
                Focus::Output => center.append("[VIEW]"),
            }
            MessageKind::Mode
        },
    };
    center.append(" ");
    let help = if app.show_help {
        String::from_str(" Press any key ")
    } else {
        String::from_str(" ?:help  q:quit  Tab:switch  Space:focus ")
    };
    proof {
        reveal_strlit(" ckptmini ");
        reveal_strlit("None");
        reveal_strlit("  PID: ");
        reveal_strlit(" ");
        reveal_strlit("[LIST]");
        reveal_strlit("[VIEW]");
        assert(left@ =~= status_left(app@));
        assert(center@ =~= status_center(app@).0);
    }
    StatusBar { left, center, kind, help }
}

/// The input panel while something is typed: its title and text; none otherwise.
pub open spec fn input_text(v: AppView) -> Option<(Seq<char>, Seq<char>)> {
    if !v.input_mode && !v.is_searching && !v.is_hex_searching {
        None
    } else {
        let prompt = " Search "@ + seq!['\u{203a}', ' '];
        Some(
            (
                if v.is_hex_searching {
                    " Hex Search "@
                } else {
                    " Input "@
                },
                if v.is_hex_searching {
                    prompt + v.hex_search
                } else if v.is_searching {
                    prompt + v.search_query
                } else {
                    v.input_buffer
                },
            ),
        )
    }
}

/// The input panel's title and text, while something is typed.
pub fn input_panel(app: &App) -> (r: Option<(String, String)>)
    ensures
        match r {
            Some((t, x)) => input_text(app@) == Some((t@, x@)),
            None => input_text(app@) is None,
        },
{
    if !app.input_mode && !app.is_searching && !app.is_hex_searching {
        return None;
    }
    let title = if app.is_hex_searching {
        String::from_str(" Hex Search ")
    } else {
        String::from_str(" Input ")
    };
    let mut prompt = String::from_str(" Search ");
    prompt.push('\u{203a}');
    prompt.push(' ');
    let text = if app.is_hex_searching {
        prompt.append(app.hex_search.as_str());
        prompt
    } else if app.is_searching {
        prompt.append(app.search_query.as_str());
        prompt
    } else {
        app.input_buffer.clone()
    };
    proof {
        reveal_strlit(" Search ");
        assert(text@ =~= input_text(app@).unwrap().1);
    }
    Some((title, text))
}

/// How a line of the output panel is drawn.
#[derive(Debug, Clone, Copy, PartialEq, Eq, Structural)]
pub enum LineStyle {
    Title,
    Heading,
    Text,
    Muted,
    Saved,
    Total,
    Data,
    Found,
    Plain,
}

/// A line of the output panel and how it is drawn.
pub struct PanelLine {
    pub text: String,
    pub style: LineStyle,
}

/// The text and style of each line.
pub open spec fn panel_views(v: Seq<PanelLine>) -> Seq<(Seq<char>, LineStyle)> {
    v.map_values(|l: PanelLine| (l.text@, l.style))
}

fn push_line(out: &mut Vec<PanelLine>, text: String, style: LineStyle)
    ensures
        panel_views(final(out)@) == panel_views(old(out)@).push((text@, style)),
{
    let ghost before = out@;
    out.push(PanelLine { text, style });
    proof {
        assert(panel_views(out@) =~= panel_views(before).push((text@, style)));
    }
}

fn push_literal(out: &mut Vec<PanelLine>, text: &str, style: LineStyle)
    ensures
        panel_views(final(out)@) == panel_views(old(out)@).push((text@, style)),
{
    push_line(out, String::from_str(text), style);
}

/// At most `count` lines from line `start` on.
pub open spec fn window(ls: Seq<Seq<char>>, start: int, count: nat) -> Seq<Seq<char>> {
    if start < 0 || start >= ls.len() {
        seq![]
    } else if ls.len() - start <= count {
        ls.skip(start)
    } else {
        ls.subrange(start, start + count)
    }
}

fn window_lines(ls: &Vec<Vec<char>>, start: usize, count: usize) -> (r: Vec<Vec<char>>)
    ensures
        views(r@) == window(views(ls@), start as int, count as nat),
{
    let mut r: Vec<Vec<char>> = Vec::new();
    if start >= ls.len() {
        proof {
            assert(views(r@) =~= window(views(ls@), start as int, count as nat));
        }
        return r;
    }
    let end = if ls.len() - start <= count {
        ls.len()
    } else {
        start + count
    };
    for i in start..end
        invariant
            start <= end <= ls@.len(),
            views(r@) == views(ls@).subrange(start as int, i as int),
    {
        let ghost before = r@;
        let line = ls[i].clone();
        assert(line@ =~= ls@[i as int]@);
        r.push(line);
        proof {
            assert(r@ == before.push(line));
            assert(views(r@) =~= views(before).push(line@));
            assert(views(ls@).subrange(start as int, i as int + 1) =~= views(ls@).subrange(
                start as int,
                i as int,
            ).push(views(ls@)[i as int]));
            assert(views(r@) =~= views(ls@).subrange(start as int, i as int + 1));
        }
    }
    proof {
        assert(views(r@) =~= window(views(ls@), start as int, count as nat));
    }
    r
}

/// A hex view line is marked when the search text, in lower case, occurs in its lower-case form.
pub open spec fn found_style(l: Seq<char>, search: Seq<char>) -> LineStyle {
    if search.len() > 0 && contains_seq(lowercase_of(l), search) {
        LineStyle::Found
    } else {
        LineStyle::Data
    }
}

/// The lines of the hex view that fit in `height` rows, from the scroll position (kept on the
/// last line at most), marked where the hex search is found.
pub open spec fn hex_panel(v: AppView, height: nat) -> Seq<(Seq<char>, LineStyle)> {
    let ls = lines_of(v.hex_data);
    let start = min_of(v.hex_scroll as int, sat_sub(ls.len() as int, 1));
    let search = lowercase_of(v.hex_search);
    window(ls, start, height).map_values(|l: Seq<char>| (l, found_style(l, search)))
}

fn hex_panel_lines(app: &App, height: usize) -> (r: Vec<PanelLine>)
    ensures
        panel_views(r@) == hex_panel(app@, height as nat),
        app@.hex_search.len() == 0 ==> lowercase_of(app@.hex_search).len() == 0,
{
    let ls = lines_of_str(app.hex_data.as_str());
    let last = if ls.len() > 0 {
        ls.len() - 1
    } else {
        0
    };
    let start = if app.hex_scroll < last {
        app.hex_scroll
    } else {
        last
    };
    let shown = window_lines(&ls, start, height);
    let search = lowercase(app.hex_search.as_str());
    let q = chars_of(search.as_str());
    let ghost w = views(shown@);
    let mut r: Vec<PanelLine> = Vec::new();
    for i in 0..shown.len()
        invariant
            w == views(shown@),
            q@ == lowercase_of(app@.hex_search),
            panel_views(r@) == w.take(i as int).map_values(
                |l: Seq<char>| (l, found_style(l, lowercase_of(app@.hex_search))),
            ),
    {
        let text = string_from(&shown[i]);
        let low = lowercase(text.as_str());
        let low_chars = chars_of(low.as_str());
        let style = if q.len() > 0 && contains(&low_chars, &q) {
            LineStyle::Found
        } else {
            LineStyle::Data
        };
        push_line(&mut r, text, style);
        proof {
            assert(w.take(i as int + 1) =~= w.take(i as int).push(w[i as int]));
            assert(panel_views(r@) =~= w.take(i as int + 1).map_values(
                |l: Seq<char>| (l, found_style(l, lowercase_of(app@.hex_search))),
            ));
        }
    }
    proof {
        assert(w.take(w.len() as int) =~= w);
        assert(panel_views(r@) =~= hex_panel(app@, height as nat));
    }
    r
}

/// Lines of the process details indented by two spaces are drawn as data.
pub open spec fn info_style(l: Seq<char>) -> LineStyle {
    if has_prefix(l, "  "@) {
        LineStyle::Data
    } else {
        LineStyle::Text
    }
}

/// The lines of a text panel that fit in `height` rows from line `start`, each styled by `data`
/// (details) or as plain text (the memory listing).
pub open spec fn text_panel(text: Seq<char>, start: usize, height: nat, details: bool) -> Seq<(Seq<char>, LineStyle)> {
    window(lines_of(text), start as int, height).map_values(
        |l: Seq<char>|
            (
                l,
                if details {
                    info_style(l)
                } else {
                    LineStyle::Text
                },
            ),
    )
}

fn text_panel_lines(text: &String, start: usize, height: usize, details: bool) -> (r: Vec<PanelLine>)
    ensures
        panel_views(r@) == text_panel(text@, start, height as nat, details),
{
    let ls = lines_of_str(text.as_str());
    let shown = window_lines(&ls, start, height);
    let ghost w = views(shown@);
    let indent = chars_of("  ");
    proof {
        reveal_strlit("  ");
    }
    let mut r: Vec<PanelLine> = Vec::new();
    for i in 0..shown.len()
        invariant
            w == views(shown@),
            indent@ == "  "@,
            panel_views(r@) == w.take(i as int).map_values(
                |l: Seq<char>|
                    (
                        l,
                        if details {
                            info_style(l)
                        } else {
                            LineStyle::Text
                        },
                    ),
            ),
    {
        let style = if details && starts_with(&shown[i], &indent) {
            LineStyle::Data
        } else {
            LineStyle::Text
        };
        let t = string_from(&shown[i]);
        push_line(&mut r, t, style);
        proof {
            assert(w.take(i as int + 1) =~= w.take(i as int).push(w[i as int]));
            assert(panel_views(r@) =~= w.take(i as int + 1).map_values(
                |l: Seq<char>|
                    (
                        l,
                        if details {
                            info_style(l)
                        } else {
                            LineStyle::Text
                        },
                    ),
            ));
        }
    }
    proof {
        assert(w.take(w.len() as int) =~= w);
    }
    r
}

/// The summary of a process shown when its details are not loaded.
pub open spec fn process_summary(p: ProcessView) -> Seq<(Seq<char>, LineStyle)> {
    seq![
        (seq![' ', dot(true)] + " PID: "@ + decimal(p.pid as nat), LineStyle::Title),
        ("   Name: "@ + p.name, LineStyle::Text),
        ("   Memory: "@ + size_text(p.memory_total), LineStyle::Text),
        ("   Threads: "@ + decimal(p.threads as nat), LineStyle::Text),
        (seq![], LineStyle::Plain),
        (" Press Enter to view memory map"@, LineStyle::Muted),
        (" Press c to create checkpoint"@, LineStyle::Muted),
    ]
}

fn process_summary_lines(p: &ProcessInfo) -> (r: Vec<PanelLine>)
    ensures
        panel_views(r@) == process_summary(p@),
{
    proof {
        reveal_strlit(" PID: ");
        reveal_strlit("   Name: ");
        reveal_strlit("   Memory: ");
        reveal_strlit("   Threads: ");
        reveal_strlit(" Press Enter to view memory map");
        reveal_strlit(" Press c to create checkpoint");
    }
    let ghost want = process_summary(p@);
    let mut r: Vec<PanelLine> = Vec::new();
    let mut t = String::new();
    t.push(' ');
    t.push('\u{25cf}');
    t.append(" PID: ");
    t.append(decimal_string(p.pid as u64).as_str());
    assert(t@ =~= want[0].0);
    push_line(&mut r, t, LineStyle::Title);
    assert(panel_views(r@) =~= want.take(1));
    let mut t = String::from_str("   Name: ");
    t.append(p.name.as_str());
    push_line(&mut r, t, LineStyle::Text);
    assert(panel_views(r@) =~= want.take(2));
    let mut t = String::from_str("   Memory: ");
    t.append(MemoryRegion::format_size(p.memory_total).as_str());
    push_line(&mut r, t, LineStyle::Text);
    assert(panel_views(r@) =~= want.take(3));
    let mut t = String::from_str("   Threads: ");
    t.append(decimal_string(p.threads as u64).as_str());
    push_line(&mut r, t, LineStyle::Text);
    assert(panel_views(r@) =~= want.take(4));
    push_line(&mut r, String::new(), LineStyle::Plain);
    assert(panel_views(r@) =~= want.take(5));
    push_literal(&mut r, " Press Enter to view memory map", LineStyle::Muted);
    assert(panel_views(r@) =~= want.take(6));
    push_literal(&mut r, " Press c to create checkpoint", LineStyle::Muted);
    assert(panel_views(r@) =~= want);
    r
}

/// What a checkpoint directory holds besides its record: whether the registers were saved, how
/// many file descriptors were saved (`None` when there is no readable `fd` directory), and the
/// entries of `mem` (`None` when it cannot be listed).
pub struct CheckpointFiles {
    pub regs_saved: bool,
    pub fd_count: Option<usize>,
    pub mem_files: Option<Vec<MemEntry>>,
}

/// A line for each entry of `mem` whose size is known: its name and size.
pub open spec fn file_lines(es: Seq<MemEntry>) -> Seq<(Seq<char>, LineStyle)>
    decreases es.len(),
{
    if es.len() == 0 {
        seq![]
    } else {
        let rest = file_lines(es.drop_last());
        match es.last().len {
            Some(l) => rest.push(("   "@ + es.last().name@ + " ("@ + size_text(l) + ")"@, LineStyle::Text)),
            None => rest,
        }
    }
}

/// The record part of a checkpoint's details at time `now`.
pub open spec fn checkpoint_head(c: CheckpointView, now: u64) -> Seq<(Seq<char>, LineStyle)> {
    seq![
        (seq![' ', dot(true)] + " Checkpoint: "@ + path_debug_text(checkpoint_label(c)), LineStyle::Title),
        (seq![], LineStyle::Plain),
        (" Details"@, LineStyle::Heading),
        ("   Original PID: "@ + decimal(c.pid as nat), LineStyle::Text),
        ("   Command: "@ + c.command, LineStyle::Text),
        ("   Memory Regions: "@ + decimal(c.regions as nat), LineStyle::Text),
        ("   Total Size: "@ + size_text(c.size_bytes), LineStyle::Text),
        ("   Created: "@ + age_text(c.created, now), LineStyle::Text),
    ]
}

/// What else was saved: the registers, and the file descriptors with their count.
pub open spec fn saved_part(f: CheckpointFiles) -> Seq<(Seq<char>, LineStyle)> {
    let regs = if f.regs_saved {
        seq![("   Registers: "@ + seq!['\u{2713}'] + " saved"@, LineStyle::Saved)]
    } else {
        seq![]
    };
    let fds = match f.fd_count {
        Some(n) => seq![("   File Descriptors: "@ + decimal(n as nat) + " saved"@, LineStyle::Saved)],
        None => seq![],
    };
    regs + fds
}

/// The files of `mem` and their total size (modulo 2^64), when `mem` could be listed.
pub open spec fn files_part(f: CheckpointFiles) -> Seq<(Seq<char>, LineStyle)> {
    match f.mem_files {
        Some(es) => file_lines(es@).push(
            (
                "   Total: "@ + size_text((len_total(es@) % 0x1_0000_0000_0000_0000) as u64),
                LineStyle::Total,
            ),
        ),
        None => seq![],
    }
}

/// The keys that act on a checkpoint.
pub open spec fn actions_part() -> Seq<(Seq<char>, LineStyle)> {
    seq![
        (seq![], LineStyle::Plain),
        (" Actions"@, LineStyle::Heading),
        ("   u - Restore to original PID"@, LineStyle::Muted),
        ("   d - Delete checkpoint"@, LineStyle::Muted),
    ]
}

/// The details of a checkpoint at time `now`: its record, what else its directory holds, its
/// files with their total size, and the keys that act on it.
pub open spec fn checkpoint_panel(c: CheckpointView, f: CheckpointFiles, now: u64) -> Seq<(Seq<char>, LineStyle)> {
    checkpoint_head(c, now) + saved_part(f) + seq![(seq![], LineStyle::Plain), (" Files"@, LineStyle::Heading)]
        + files_part(f) + actions_part()
}

fn file_list_lines(out: &mut Vec<PanelLine>, es: &Vec<MemEntry>)
    ensures
        panel_views(final(out)@) == panel_views(old(out)@) + file_lines(es@).push(
            (
                "   Total: "@ + size_text((len_total(es@) % 0x1_0000_0000_0000_0000) as u64),
                LineStyle::Total,
            ),
        ),
{
    let ghost start = panel_views(out@);
    let mut total: u64 = 0;
    for i in 0..es.len()
        invariant
            panel_views(out@) == start + file_lines(es@.take(i as int)),
            total as nat == len_total(es@.take(i as int)) % 0x1_0000_0000_0000_0000,
    {
        proof {
            assert(es@.take(i as int + 1).drop_last() =~= es@.take(i as int));
        }
        match es[i].len {
            Some(l) => {
                total = total.wrapping_add(l);
                let mut t = String::from_str("   ");
                t.append(es[i].name.as_str());
                t.append(" (");
                t.append(MemoryRegion::format_size(l).as_str());
                t.append(")");
                let ghost before = panel_views(out@);
                push_line(out, t, LineStyle::Text);
                proof {
                    reveal_strlit("   ");
                    reveal_strlit(" (");
                    reveal_strlit(")");
                    assert(before + file_lines(es@.take(i as int)).push((t@, LineStyle::Text)) =~= (before
                        + file_lines(es@.take(i as int))).push((t@, LineStyle::Text)));
                }
            },
            None => {},
        }
    }
    proof {
        assert(es@.take(es@.len() as int) =~= es@);
    }
    let mut t = String::from_str("   Total: ");
    t.append(MemoryRegion::format_size(total).as_str());
    push_line(out, t, LineStyle::Total);
    proof {
        reveal_strlit("   Total: ");
    }
}

fn checkpoint_head_lines(c: &CheckpointInfo, now: u64) -> (r: Vec<PanelLine>)
    ensures
        panel_views(r@) == checkpoint_head(c@, now),
{
    proof {
        reveal_strlit(" Checkpoint: ");
        reveal_strlit(" Details");
        reveal_strlit("   Original PID: ");
        reveal_strlit("   Command: ");
        reveal_strlit("   Memory Regions: ");
        reveal_strlit("   Total Size: ");
        reveal_strlit("   Created: ");
    }
    let ghost want = checkpoint_head(c@, now);
    let mut r: Vec<PanelLine> = Vec::new();
    let name = match crate::text::file_name(c.path.as_str()) {
        Some(n) => n,
        None => String::new(),
    };
    let mut t = String::new();
    t.push(' ');
    t.push('\u{25cf}');
    t.append(" Checkpoint: ");
    t.append(crate::foreign::path_debug(name.as_str()).as_str());
    assert(t@ =~= want[0].0);
    push_line(&mut r, t, LineStyle::Title);
    assert(panel_views(r@) =~= want.take(1));
    push_line(&mut r, String::new(), LineStyle::Plain);
    assert(panel_views(r@) =~= want.take(2));
    push_literal(&mut r, " Details", LineStyle::Heading);
    assert(panel_views(r@) =~= want.take(3));
    let mut t = String::from_str("   Original PID: ");
    t.append(decimal_string(c.pid as u64).as_str());
    push_line(&mut r, t, LineStyle::Text);
    assert(panel_views(r@) =~= want.take(4));
    let mut t = String::from_str("   Command: ");
    t.append(c.command.as_str());
    push_line(&mut r, t, LineStyle::Text);
    assert(panel_views(r@) =~= want.take(5));
    let mut t = String::from_str("   Memory Regions: ");
    t.append(decimal_string(c.regions as u64).as_str());
    push_line(&mut r, t, LineStyle::Text);
    assert(panel_views(r@) =~= want.take(6));
    let mut t = String::from_str("   Total Size: ");
    t.append(c.human_size().as_str());
    push_line(&mut r, t, LineStyle::Text);
    assert(panel_views(r@) =~= want.take(7));
    let mut t = String::from_str("   Created: ");
    t.append(c.age_string_at(now).as_str());
    push_line(&mut r, t, LineStyle::Text);
    assert(panel_views(r@) =~= want);
    r
}

fn saved_lines(out: &mut Vec<PanelLine>, f: &CheckpointFiles)
    ensures
        panel_views(final(out)@) == panel_views(old(out)@) + saved_part(*f),
{
    proof {
        reveal_strlit("   Registers: ");
        reveal_strlit(" saved");
        reveal_strlit("   File Descriptors: ");
    }
    let ghost start = panel_views(out@);
    let ghost regs = if f.regs_saved {
        seq![("   Registers: "@ + seq!['\u{2713}'] + " saved"@, LineStyle::Saved)]
    } else {
        Seq::<(Seq<char>, LineStyle)>::empty()
    };
    if f.regs_saved {
        let mut t = String::from_str("   Registers: ");
        t.push('\u{2713}');
        t.append(" saved");
        assert(t@ =~= regs[0].0);
        push_line(out, t, LineStyle::Saved);
    }
    assert(panel_views(out@) =~= start + regs);
    match f.fd_count {
        Some(n) => {
            let mut t = String::from_str("   File Descriptors: ");
            t.append(decimal_string(n as u64).as_str());
            t.append(" saved");
            push_line(out, t, LineStyle::Saved);
        },
        None => {},
    }
    assert(panel_views(out@) =~= start + saved_part(*f));
}

fn checkpoint_panel_lines(c: &CheckpointInfo, f: &CheckpointFiles, now: u64) -> (r: Vec<PanelLine>)
    ensures
        panel_views(r@) == checkpoint_panel(c@, *f, now),
{
    proof {
        reveal_strlit(" Files");
        reveal_strlit(" Actions");
        reveal_strlit("   u - Restore to original PID");
        reveal_strlit("   d - Delete checkpoint");
    }
    let mut r = checkpoint_head_lines(c, now);
    saved_lines(&mut r, f);
    push_line(&mut r, String::new(), LineStyle::Plain);
    push_literal(&mut r, " Files", LineStyle::Heading);
    let ghost before_files = panel_views(r@);
    match &f.mem_files {
        Some(es) => file_list_lines(&mut r, es),
        None => {},
    }
    assert(panel_views(r@) =~= before_files + files_part(*f));
    let ghost before_actions = panel_views(r@);
    push_line(&mut r, String::new(), LineStyle::Plain);
    push_literal(&mut r, " Actions", LineStyle::Heading);
    push_literal(&mut r, "   u - Restore to original PID", LineStyle::Muted);
    push_literal(&mut r, "   d - Delete checkpoint", LineStyle::Muted);
    assert(panel_views(r@) =~= before_actions + actions_part());
    assert(panel_views(r@) =~= checkpoint_panel(c@, *f, now));
    r
}

/// The lines of the output panel, `height` rows high, at time `now`; `files` describes the
/// selected checkpoint's directory on the checkpoint tab. The hex view when it is open; else
/// the selected checkpoint's details, the memory listing, the process details or summary, or a
/// hint for what to select.
pub open spec fn output_panel(v: AppView, height: nat, now: u64, files: CheckpointFiles) -> Seq<(Seq<char>, LineStyle)> {
    if v.show_hex_view {
        hex_panel(v, height)
    } else {
        match v.tab {
            Tab::Checkpoints => match selected_ckpt(v) {
                Some(c) => checkpoint_panel(c, files, now),
                None => seq![(seq![' ', dot(false)] + " No checkpoint selected"@, LineStyle::Muted)],
            },
            Tab::Memory => if v.dump_output.len() > 0 {
                text_panel(v.dump_output, v.output_scroll, height, false)
            } else {
                seq![(" Select a memory region to view details"@, LineStyle::Plain)]
            },
            Tab::Processes => if v.process_info.len() > 0 {
                text_panel(v.process_info, v.process_info_scroll, height, true)
            } else {
                match selected_proc(v) {
                    Some(p) => process_summary(p),
                    None => seq![(seq![' ', dot(false)] + " No process selected"@, LineStyle::Muted)],
                }
            },
        }
    }
}

/// The lines of the output panel.
pub fn output_lines(app: &App, height: usize, now: u64, files: &CheckpointFiles) -> (r: Vec<PanelLine>)
    ensures
        panel_views(r@) == output_panel(app@, height as nat, now, *files),
        app@.show_hex_view && app@.hex_search.len() == 0 ==> forall|i: int|
            0 <= i < r@.len() ==> (#[trigger] r@[i]).style == LineStyle::Data,
{
    if app.show_hex_view {
        let r = hex_panel_lines(app, height);
        proof {
            if app@.hex_search.len() == 0 {
                assert forall|i: int| 0 <= i < r@.len() implies (#[trigger] r@[i]).style
                    == LineStyle::Data by {
                    hex_search_law(app@, height as nat, now, *files, i);
                    assert(panel_views(r@)[i].1 == r@[i].style);
                }
            }
        }
        return r;
    }
    let mut r: Vec<PanelLine> = Vec::new();
    match app.tab {
        Tab::Checkpoints => match app.selected_checkpoint() {
            Some(c) => {
                return checkpoint_panel_lines(c, files, now);
            },
            None => {
                let mut t = String::new();
                t.push(' ');
                t.push('\u{25cb}');
                t.append(" No checkpoint selected");
                proof {
                    reveal_strlit(" No checkpoint selected");
                    assert(t@ =~= seq![' ', dot(false)] + " No checkpoint selected"@);
                }
                push_line(&mut r, t, LineStyle::Muted);
            },
        },
        Tab::Memory => {
            if app.dump_output.as_str().is_empty() {
                push_literal(&mut r, " Select a memory region to view details", LineStyle::Plain);
            } else {
                return text_panel_lines(&app.dump_output, app.output_scroll, height, false);
            }
        },
        Tab::Processes => {
            if app.process_info.as_str().is_empty() {
                match app.selected_process() {
                    Some(p) => {
                        return process_summary_lines(p);
                    },
                    None => {
                        let mut t = String::new();
                        t.push(' ');
                        t.push('\u{25cb}');
                        t.append(" No process selected");
                        proof {
                            reveal_strlit(" No process selected");
                            assert(t@ =~= seq![' ', dot(false)] + " No process selected"@);
                        }
                        push_line(&mut r, t, LineStyle::Muted);
                    },
                }
            } else {
                return text_panel_lines(&app.process_info, app.process_info_scroll, height, true);
            }
        },
    }
    proof {
        assert(panel_views(r@) =~= output_panel(app@, height as nat, now, *files));
    }
    r
}

/// The rows of a list of `len` items that fit in a list area `area_height` rows high, two of
/// which hold the header: from the cursor (kept on the last item at most) on, each with whether
/// it is drawn as selected, which the first shown row is while the list has the focus.
pub open spec fn shown_rows(len: nat, scroll: nat, area_height: nat, focus: Focus) -> Seq<(usize, bool)> {
    let first = min_of(scroll as int, sat_sub(len as int, 1));
    let count = min_of(sat_sub(area_height as int, 2), sat_sub(len as int, first));
    Seq::new(count as nat, |k: int| ((first + k) as usize, k == 0 && focus == Focus::List))
}

/// The rows of a list to draw, by index, and whether each is drawn as selected.
pub fn visible_rows(len: usize, scroll: usize, area_height: usize, focus: Focus) -> (r: Vec<(usize, bool)>)
    ensures
        r@ == shown_rows(len as nat, scroll as nat, area_height as nat, focus),
{
    let last = if len > 0 {
        len - 1
    } else {
        0
    };
    let first = if scroll < last {
        scroll
    } else {
        last
    };
    let h = if area_height > 2 {
        area_height - 2
    } else {
        0
    };
    let avail = if len > first {
        len - first
    } else {
        0
    };
    let count = if h < avail {
        h
    } else {
        avail
    };
    let listed = focus == Focus::List;
    let mut r: Vec<(usize, bool)> = Vec::new();
    for k in 0..count
        invariant
            first + count <= len,
            listed == (focus == Focus::List),
            r@ == Seq::new(k as nat, |j: int| ((first + j) as usize, j == 0 && focus == Focus::List)),
    {
        r.push((first + k, k == 0 && listed));
        assert(r@ =~= Seq::new(
            (k + 1) as nat,
            |j: int| ((first + j) as usize, j == 0 && focus == Focus::List),
        ));
    }
    assert(r@ =~= shown_rows(len as nat, scroll as nat, area_height as nat, focus));
    r
}

/// In the hex view, the lines shown are lines of the dump, and a line is marked as found exactly
/// when the lower-cased hex search text is not empty and occurs in the line's lower-cased text;
/// every other line is drawn as plain data. With no search text, no line is marked.
pub proof fn hex_search_law(v: AppView, height: nat, now: u64, files: CheckpointFiles, i: int)
    requires
        v.show_hex_view,
        0 <= i < output_panel(v, height, now, files).len(),
    ensures
        lines_of(v.hex_data).contains(output_panel(v, height, now, files)[i].0),
        output_panel(v, height, now, files)[i].1 == LineStyle::Found || output_panel(
            v,
            height,
            now,
            files,
        )[i].1 == LineStyle::Data,
        output_panel(v, height, now, files)[i].1 == LineStyle::Found <==> lowercase_of(v.hex_search).len()
            > 0 && contains_seq(
            lowercase_of(output_panel(v, height, now, files)[i].0),
            lowercase_of(v.hex_search),
        ),
        lowercase_of(v.hex_search).len() == 0 ==> output_panel(v, height, now, files)[i].1
            == LineStyle::Data,
{
    let ls = lines_of(v.hex_data);
    let start = min_of(v.hex_scroll as int, sat_sub(ls.len() as int, 1));
    let w = window(ls, start, height);
    assert(output_panel(v, height, now, files)[i].0 == w[i]);
    if start < ls.len() {
        if ls.len() - start <= height {
            assert(w[i] == ls[start + i]);
        } else {
            assert(w[i] == ls[start + i]);
        }
    }
}

} // verus!
