//! Reformatting the tool's memory read output as a classic hex dump.
use vstd::prelude::*;
use crate::num::{hex, pad_left, pad_left_chars, parse_uint, parse_uint_spec, radix_string};
use crate::text::{chars_of, has_prefix, lines_of, split_words, starts_with, string_from, trim, trim_of, views, words_of};

verus! {

/// The bytes among `ps` that read as two-digit hexadecimal values, in order.
pub open spec fn hex_bytes(ps: Seq<Seq<char>>) -> Seq<u8>
    decreases ps.len(),
{
    if ps.len() == 0 {
        seq![]
    } else {
        let rest = hex_bytes(ps.drop_last());
        match parse_uint_spec(ps.last(), 16, 255) {
            Some(v) => rest.push(v as u8),
            None => rest,
        }
    }
}

/// The cell for column `i` of a dump line: the byte in two hexadecimal digits and a space, or
/// three spaces past the end; one more space after the eighth column.
pub open spec fn byte_cell(bytes: Seq<u8>, i: nat) -> Seq<char> {
    let cell = if i < bytes.len() {
        pad_left(hex(bytes[i as int] as nat), 2, '0') + seq![' ']
    } else {
        seq![' ', ' ', ' ']
    };
    if i == 7 {
        cell + seq![' ']
    } else {
        cell
    }
}

/// The cells of the first `n` columns.
pub open spec fn byte_cells(bytes: Seq<u8>, n: nat) -> Seq<char>
    decreases n,
{
    if n == 0 {
        seq![]
    } else {
        byte_cells(bytes, (n - 1) as nat) + byte_cell(bytes, (n - 1) as nat)
    }
}

/// A byte as shown in the text column: itself when printable ASCII, else `'.'`.
pub open spec fn shown_char(b: u8) -> char {
    if 32 <= b < 127 {
        b as char
    } else {
        '.'
    }
}

/// The text column of a dump line.
pub open spec fn shown_text(bytes: Seq<u8>) -> Seq<char> {
    bytes.map_values(|b: u8| shown_char(b))
}

/// Where the byte fields of a dump line end: after at most sixteen fields following the address.
pub open spec fn byte_fields_end(n: nat) -> int {
    if n >= 17 {
        17
    } else {
        n as int
    }
}

/// The dump line a line of the tool's output becomes: lines that are empty, start with
/// `"Reading"` or have fewer than sixteen fields give none; otherwise the address field, two
/// spaces, sixteen byte columns read from the next sixteen fields, and the text column between
/// `" |"` and `"|"`, ended by a newline.
pub open spec fn dump_line(line: Seq<char>) -> Option<Seq<char>> {
    let l = trim_of(line);
    if l.len() == 0 || has_prefix(l, "Reading"@) {
        None
    } else {
        let parts = words_of(l);
        if parts.len() < 16 {
            None
        } else {
            let bytes = hex_bytes(parts.subrange(1, byte_fields_end(parts.len())));
            Some(
                parts[0] + seq![' ', ' '] + byte_cells(bytes, 16) + seq![' ', '|'] + shown_text(bytes)
                    + seq!['|', '\n'],
            )
        }
    }
}

/// The dump lines of all lines, concatenated.
pub open spec fn dump_text(ls: Seq<Seq<char>>) -> Seq<char>
    decreases ls.len(),
{
    if ls.len() == 0 {
        seq![]
    } else {
        dump_text(ls.drop_last()) + match dump_line(ls.last()) {
            Some(t) => t,
            None => seq![],
        }
    }
}

fn push_all(out: &mut Vec<char>, v: &Vec<char>)
    ensures
        final(out)@ == old(out)@ + v@,
{
    for i in 0..v.len()
        invariant
            out@ == old(out)@ + v@.take(i as int),
    {
        out.push(v[i]);
        proof {
            assert(v@.take(i as int + 1) =~= v@.take(i as int).push(v@[i as int]));
        }
    }
    proof {
        assert(v@.take(v@.len() as int) =~= v@);
    }
}

fn shown_byte(b: u8) -> (c: char)
    ensures
        c == shown_char(b),
{
    if 32 <= b && b < 127 {
        b as char
    } else {
        '.'
    }
}

/// Formats one line, or `None` when it carries no bytes.
fn format_dump_line(line: &Vec<char>) -> (r: Option<Vec<char>>)
    ensures
        match r {
            Some(t) => dump_line(line@) == Some(t@),
            None => dump_line(line@) is None,
        },
{
    let l = trim(line);
    let reading = chars_of("Reading");
    if l.len() == 0 || starts_with(&l, &reading) {
        return None;
    }
    let parts = split_words(&l);
    if parts.len() < 16 {
        return None;
    }
    let end: usize = if parts.len() >= 17 {
        17
    } else {
        parts.len()
    };
    let ghost fields = views(parts@).subrange(1, end as int);
    let mut bytes: Vec<u8> = Vec::new();
    let mut k: usize = 1;
    while k < end
        invariant
            1 <= k <= end,
            end <= parts@.len(),
            end == byte_fields_end(parts@.len()),
            parts@.len() >= 16,
            fields == views(parts@).subrange(1, end as int),
            bytes@ == hex_bytes(fields.take(k - 1)),
        decreases 17 - k,
    {
        proof {
            assert(fields.take(k as int).drop_last() =~= fields.take(k - 1));
            assert(fields.take(k as int).last() == parts@[k as int]@);
        }
        match parse_uint(&parts[k], 16, 255) {
            Some(v) => bytes.push(v as u8),
            None => {},
        }
        k = k + 1;
    }
    proof {
        assert(fields.take(k - 1) =~= fields);
    }
    let mut out: Vec<char> = Vec::new();
    push_all(&mut out, &parts[0]);
    out.push(' ');
    out.push(' ');
    let ghost head = out@;
    proof {
        assert(head =~= parts@[0]@ + seq![' ', ' ']);
    }
    for i in 0..16usize
        invariant
            out@ == head + byte_cells(bytes@, i as nat),
    {
        let ghost before = out@;
        if i < bytes.len() {
            let h = radix_string(bytes[i] as u64, 16);
            let p = pad_left_chars(&h, 2, '0');
            push_all(&mut out, &p);
            out.push(' ');
        } else {
            out.push(' ');
            out.push(' ');
            out.push(' ');
        }
        if i == 7 {
            out.push(' ');
        }
        proof {
            assert(out@ =~= before + byte_cell(bytes@, i as nat));
        }
    }
    out.push(' ');
    out.push('|');
    let ghost mid = out@;
    for i in 0..bytes.len()
        invariant
            out@ == mid + shown_text(bytes@.take(i as int)),
    {
        out.push(shown_byte(bytes[i]));
        proof {
            assert(shown_text(bytes@.take(i as int + 1)) =~= shown_text(bytes@.take(i as int)).push(
                shown_char(bytes@[i as int]),
            ));
        }
    }
    proof {
        assert(bytes@.take(bytes@.len() as int) =~= bytes@);
    }
    out.push('|');
    out.push('\n');
    proof {
        assert(views(parts@)[0] == parts@[0]@);
        assert(out@ =~= parts@[0]@ + seq![' ', ' '] + byte_cells(bytes@, 16) + seq![' ', '|']
            + shown_text(bytes@) + seq!['|', '\n']);
    }
    Some(out)
}

/// Turns the tool's memory read output into a hex dump: for each line with at least sixteen
/// fields, the address, sixteen byte columns and the printable text. The address argument is
/// not used: each line carries its own.
pub fn format_hex_dump(addr: u64, data: &str) -> (r: String)
    ensures
        r@ == dump_text(lines_of(data@)),
{
    let lines = crate::text::lines_of_str(data);
    let mut out: Vec<char> = Vec::new();
    for i in 0..lines.len()
        invariant
            out@ == dump_text(views(lines@).take(i as int)),
    {
        proof {
            assert(views(lines@).take(i as int + 1).drop_last() =~= views(lines@).take(i as int));
            assert(views(lines@).take(i as int + 1).last() == lines@[i as int]@);
        }
        match format_dump_line(&lines[i]) {
            Some(t) => push_all(&mut out, &t),
            None => {
                proof {
                    assert(out@ =~= out@ + Seq::<char>::empty());
                }
            },
        }
    }
    proof {
        assert(views(lines@).take(lines@.len() as int) =~= views(lines@));
    }
    string_from(&out)
}

} // verus!
