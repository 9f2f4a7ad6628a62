//! Parsing of the runtime's container listing: one row per line, columns
//! separated by `;`.
use vstd::prelude::*;
use vstd::utf8::{decode_utf8, valid_utf8};
use crate::mc::{record_of, Container, ContainerView};
use crate::port::{extract_port, port_of};
use crate::text::{capitalized, has_prefix, strip_prefix, strip_text_prefix};

verus! {

/// The columns of a row: `s` cut at every `;`.
pub open spec fn fields_of(s: Seq<char>) -> Seq<Seq<char>>
    decreases s.len(),
{
    if s.len() == 0 {
        seq![Seq::empty()]
    } else {
        let f = fields_of(s.drop_last());
        if s.last() == ';' {
            f.push(Seq::empty())
        } else {
            f.update(f.len() - 1, f.last().push(s.last()))
        }
    }
}

/// Column `k` of a row, empty where the row has fewer columns.
pub open spec fn column(fs: Seq<Seq<char>>, k: int) -> Seq<char> {
    if 0 <= k < fs.len() {
        fs[k]
    } else {
        Seq::empty()
    }
}

/// The record of a listing row, or `None` where its name column does not
/// begin with `prefix`.
pub open spec fn parse_row(prefix: Seq<char>, line: Seq<char>) -> Option<ContainerView> {
    let fs = fields_of(line);
    match strip_prefix(column(fs, 0), prefix) {
        Some(name) => Some(
            ContainerView {
                name,
                port: port_of(column(fs, 1)),
                status: column(fs, 2),
                created: column(fs, 3),
                level_type: capitalized(column(fs, 4)),
                game_mode: capitalized(column(fs, 5)),
            },
        ),
        None => None,
    }
}

/// `b` with one trailing carriage return removed.
pub open spec fn trim_cr(b: Seq<u8>) -> Seq<u8> {
    if b.len() > 0 && b.last() == 13u8 {
        b.drop_last()
    } else {
        b
    }
}

/// The lines of `b`: cut after every line feed, each without its line feed and
/// a carriage return before it; no line after a final line feed.
pub open spec fn lines_of(b: Seq<u8>) -> Seq<Seq<u8>>
    decreases b.len(),
{
    if b.len() == 0 {
        Seq::empty()
    } else if exists|i: int| 0 <= i < b.len() && b[i] == 10u8 {
        let i = choose|i: int|
            0 <= i < b.len() && b[i] == 10u8 && forall|j: int| 0 <= j < i ==> b[j] != 10u8;
        if 0 <= i < b.len() {
            seq![trim_cr(b.subrange(0, i))] + lines_of(b.subrange(i + 1, b.len() as int))
        } else {
            Seq::empty()
        }
    } else {
        seq![b]
    }
}

/// The records of the rows among `lines` that are UTF-8 text with a managed
/// name, in their order.
pub open spec fn records_of(prefix: Seq<char>, lines: Seq<Seq<u8>>) -> Seq<ContainerView>
    decreases lines.len(),
{
    if lines.len() == 0 {
        Seq::empty()
    } else {
        let rest = records_of(prefix, lines.drop_last());
        let b = lines.last();
        if valid_utf8(b) {
            match parse_row(prefix, decode_utf8(b)) {
                Some(r) => rest.push(r),
                None => rest,
            }
        } else {
            rest
        }
    }
}

/// The records of a listing output.
pub open spec fn listing_of(prefix: Seq<char>, out: Seq<u8>) -> Seq<ContainerView> {
    records_of(prefix, lines_of(out))
}

/// A row whose name column does not begin with the prefix yields no record.
pub proof fn lemma_unmanaged_row(prefix: Seq<char>, line: Seq<char>)
    requires
        !has_prefix(column(fields_of(line), 0), prefix),
    ensures
        parse_row(prefix, line) is None,
{
}

/// A line whose name column does not begin with the prefix adds no record to
/// those of the lines before it.
pub proof fn lemma_unmanaged_line_dropped(prefix: Seq<char>, lines: Seq<Seq<u8>>, line: Seq<u8>)
    requires
        valid_utf8(line) ==> !has_prefix(column(fields_of(decode_utf8(line)), 0), prefix),
    ensures
        records_of(prefix, lines.push(line)) == records_of(prefix, lines),
{
    assert(lines.push(line).drop_last() =~= lines);
}

/// Lines none of which has a name column that begins with the prefix yield no
/// records at all.
pub proof fn lemma_no_managed_lines(prefix: Seq<char>, lines: Seq<Seq<u8>>)
    requires
        forall|k: int|
            0 <= k < lines.len() && valid_utf8(#[trigger] lines[k]) ==> !has_prefix(
                column(fields_of(decode_utf8(lines[k])), 0),
                prefix,
            ),
    ensures
        records_of(prefix, lines) == Seq::<ContainerView>::empty(),
    decreases lines.len(),
{
    if lines.len() > 0 {
        let init = lines.drop_last();
        assert forall|k: int|
            0 <= k < init.len() && valid_utf8(#[trigger] init[k]) implies !has_prefix(
            column(fields_of(decode_utf8(init[k])), 0),
            prefix,
        ) by {
            assert(init[k] == lines[k]);
        }
        lemma_no_managed_lines(prefix, init);
        assert(lines.last() == lines[lines.len() - 1]);
    }
}

/// A row whose name column is the prefix followed by `x` yields a record named
/// `x`.
pub proof fn lemma_managed_name(prefix: Seq<char>, line: Seq<char>, x: Seq<char>)
    requires
        column(fields_of(line), 0) == prefix + x,
    ensures
        parse_row(prefix, line) matches Some(r) && r.name == x,
{
    lemma_prefix_round_trip(prefix, x);
}

/// Adding the prefix to a name and stripping it again gives the name back; and
/// stripping the prefix from a name that begins with it and adding it again
/// gives the name back.
pub proof fn lemma_prefix_round_trip(prefix: Seq<char>, x: Seq<char>)
    ensures
        strip_prefix(prefix + x, prefix) == Some(x),
        has_prefix(x, prefix) ==> (strip_prefix(x, prefix) matches Some(y) && prefix + y == x),
{
    assert((prefix + x).subrange(0, prefix.len() as int) =~= prefix);
    assert((prefix + x).skip(prefix.len() as int) =~= x);
    if has_prefix(x, prefix) {
        assert(prefix + x.skip(prefix.len() as int) =~= x);
    }
}

/// The records of a listing depend on the runtime's output alone: two
/// listings of the same output give the same records, in the same order.
pub proof fn lemma_listing_repeatable(prefix: Seq<char>, first: Seq<u8>, second: Seq<u8>)
    requires
        first == second,
    ensures
        listing_of(prefix, first) == listing_of(prefix, second),
{
}

/// Relies on bytelines' `ByteLines` over a byte slice: it reads up to each line
/// feed, drops the line feed and a carriage return before it, and reading from
/// memory never fails.
#[verifier::external_body]
fn byte_lines(out: &Vec<u8>) -> (r: Vec<Vec<u8>>)
    ensures
        r@.map_values(|l: Vec<u8>| l@) == lines_of(out@),
{
    bytelines::ByteLines::new(out.as_slice()).into_iter().map(|l| l.unwrap_or_default()).collect()
}

/// Relies on `String::from_utf8`: the text that `b` encodes, or an error where
/// `b` is not UTF-8.
#[verifier::external_body]
fn utf8_text(b: Vec<u8>) -> (r: Option<String>)
    ensures
        r is Some <==> valid_utf8(b@),
        r matches Some(t) ==> t@ == decode_utf8(b@),
{
    String::from_utf8(b).ok()
}

/// The columns of a row, cut at every `;`.
pub fn split_fields(line: &str) -> (r: Vec<String>)
    ensures
        r@.map_values(|f: String| f@) == fields_of(line@),
{
    let n = line.unicode_len();
    let mut done: Vec<String> = Vec::new();
    let mut start: usize = 0;
    let mut i: usize = 0;
    assert(line@.take(0) =~= Seq::<char>::empty());
    assert(done@.map_values(|f: String| f@).push(line@.subrange(0, 0)) =~= seq![
        Seq::<char>::empty(),
    ]);
    while i < n
        invariant
            n == line@.len(),
            start <= i <= n,
            done@.map_values(|f: String| f@).push(line@.subrange(start as int, i as int))
                == fields_of(line@.take(i as int)),
        decreases n - i,
    {
        let ghost s = line@.take(i as int + 1);
        let ghost old_done = done@.map_values(|f: String| f@);
        let ghost before = old_done.push(line@.subrange(start as int, i as int));
        assert(s.drop_last() =~= line@.take(i as int));
        assert(s.last() == line@[i as int]);
        if line.get_char(i) == ';' {
            let f = String::from_str(line.substring_char(start, i));
            assert(before == old_done.push(f@));
            done.push(f);
            start = i + 1;
            assert(done@.map_values(|f: String| f@) =~= before);
            assert(line@.subrange(start as int, i as int + 1) =~= Seq::<char>::empty());
        } else {
            assert(line@.subrange(start as int, i as int).push(line@[i as int]) =~= line@.subrange(
                start as int,
                i as int + 1,
            ));
            assert(before.update(before.len() - 1, before.last().push(line@[i as int]))
                =~= old_done.push(line@.subrange(start as int, i as int + 1)));
        }
        i = i + 1;
    }
    done.push(String::from_str(line.substring_char(start, n)));
    assert(line@.take(n as int) =~= line@);
    assert(done@.map_values(|f: String| f@) =~= fields_of(line@));
    done
}

fn column_text(fs: &Vec<String>, k: usize) -> (r: &str)
    ensures
        r@ == column(fs@.map_values(|f: String| f@), k as int),
{
    if k < fs.len() {
        fs[k].as_str()
    } else {
        proof {
            reveal_strlit("");
        }
        ""
    }
}

/// The record of a listing row, or `None` where its name column does not begin
/// with `prefix`.
pub fn parse_listing_row(prefix: &str, line: &str) -> (r: Option<Container>)
    ensures
        match r {
            Some(c) => parse_row(prefix@, line@) == Some(c@),
            None => parse_row(prefix@, line@) is None,
        },
{
    let fs = split_fields(line);
    match strip_text_prefix(column_text(&fs, 0), prefix) {
        Some(name) => {
            let port = extract_port(column_text(&fs, 1));
            let row = vec![
                name.as_str(),
                port.as_str(),
                column_text(&fs, 2),
                column_text(&fs, 3),
                column_text(&fs, 4),
                column_text(&fs, 5),
            ];
            let c = Container::new(row);
            Some(c)
        },
        None => None,
    }
}

/// The records of a listing output: one for each line that is UTF-8 text and
/// whose name column begins with `prefix`, in the order of the lines.
pub fn parse_listing(prefix: &str, out: &Vec<u8>) -> (r: Vec<Container>)
    ensures
        r@.map_values(|c: Container| c@) == listing_of(prefix@, out@),
{
    let lines = byte_lines(out);
    let ghost ls = lines@.map_values(|l: Vec<u8>| l@);
    let mut r: Vec<Container> = Vec::new();
    let mut i: usize = 0;
    while i < lines.len()
        invariant
            i <= lines@.len(),
            ls == lines@.map_values(|l: Vec<u8>| l@),
            ls == lines_of(out@),
            r@.map_values(|c: Container| c@) == records_of(prefix@, ls.take(i as int)),
        decreases lines@.len() - i,
    {
        assert(ls.take(i as int + 1).drop_last() =~= ls.take(i as int));
        assert(ls.take(i as int + 1).last() == lines@[i as int]@);
        let line = lines[i].clone();
        match utf8_text(line) {
            Some(text) => {
                match parse_listing_row(prefix, text.as_str()) {
                    Some(c) => {
                        r.push(c);
                        assert(r@.map_values(|c: Container| c@) =~= records_of(
                            prefix@,
                            ls.take(i as int + 1),
                        ));
                    },
                    None => {},
                }
            },
            None => {},
        }
        i = i + 1;
    }
    assert(ls.take(lines@.len() as int) =~= ls);
    r
}

} // verus!
