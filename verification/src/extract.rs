//! Structured-output extraction from free-form advisor text: an optional
//! title directive on the first line, an optional markdown table, and the
//! output-format keyword scan over the user's message.

use vstd::prelude::*;
use crate::models::{TableSpec, TableView, opt_view};
use crate::text::{
    chars_of, string_of_chars, split_lines, split_on_char, trim_chars, subvec, starts_with,
    contains_sub, to_lower, spec_lines, spec_trim, spec_starts_with, spec_split_on, spec_contains,
    spec_match_at, spec_lower,
};

verus! {

/// The explicit title and remaining body of raw advisor text. When the first
/// line, trimmed, starts with the `TITLE:` marker, the rest of that line
/// (trimmed, cut to 80 characters, empty meaning no title) is the title; a
/// blank second line is dropped, and the remaining lines joined with `\n`
/// are the body. Without the marker the whole raw text is the body.
pub open spec fn spec_extract_title(raw: Seq<char>) -> (Option<Seq<char>>, Seq<char>) {
    let ls = spec_lines(raw);
    if ls.len() > 0 && spec_starts_with(spec_trim(ls[0]), "TITLE:"@) {
        let t = spec_trim(spec_trim(ls[0]).skip("TITLE:"@.len() as int));
        let title = if t.len() > 0 {
            Some(
                t.take(
                    if t.len() < 80 {
                        t.len() as int
                    } else {
                        80
                    },
                ),
            )
        } else {
            None
        };
        let body = if ls.len() >= 2 {
            if spec_trim(ls[1]).len() == 0 {
                crate::text::spec_join_from(ls, 2)
            } else {
                crate::text::spec_join_from(ls, 1)
            }
        } else {
            Seq::empty()
        };
        (title, body)
    } else {
        (None, raw)
    }
}

/// Splits raw advisor text into its explicit title, if any, and its body.
pub fn extract_title(raw: &str) -> (r: (Option<String>, String))
    ensures
        opt_view(r.0) == spec_extract_title(raw@).0,
        r.1@ == spec_extract_title(raw@).1,
{
    let chars = chars_of(raw);
    let lines = split_lines(&chars);
    let ghost ls = lines@.map_values(|l: Vec<char>| l@);
    let marker_str: &str = "TITLE:";
    let marker = chars_of(marker_str);
    if lines.len() > 0 {
        let t0 = trim_chars(&lines[0]);
        if starts_with(&t0, &marker) {
            let rest = subvec(&t0, marker.len(), t0.len());
            proof {
                assert(rest@ =~= spec_trim(ls[0]).skip("TITLE:"@.len() as int));
            }
            let t = trim_chars(&rest);
            let title = if t.len() > 0 {
                let cut = if t.len() < 80 {
                    t.len()
                } else {
                    80
                };
                let tt = subvec(&t, 0, cut);
                proof {
                    assert(tt@ =~= t@.take(cut as int));
                }
                Some(string_of_chars(&tt))
            } else {
                None
            };
            let body = if lines.len() >= 2 {
                let t1 = trim_chars(&lines[1]);
                if t1.len() == 0 {
                    string_of_chars(&crate::text::join_from(&lines, 2))
                } else {
                    string_of_chars(&crate::text::join_from(&lines, 1))
                }
            } else {
                String::new()
            };
            return (title, body);
        }
    }
    (None, raw.to_owned())
}

/// Index of the first line at or after `i` whose trimmed text is non-blank,
/// or the number of lines when every one is blank.
pub open spec fn spec_first_nonblank(ls: Seq<Seq<char>>, i: int) -> int
    decreases ls.len() - i,
{
    if i < 0 || i >= ls.len() {
        ls.len() as int
    } else if spec_trim(ls[i]).len() > 0 {
        i
    } else {
        spec_first_nonblank(ls, i + 1)
    }
}

/// The first non-blank index is within bounds, hits a non-blank line when in
/// range, and everything before it is blank.
pub proof fn lemma_first_nonblank_props(ls: Seq<Seq<char>>, i: int)
    requires
        0 <= i <= ls.len(),
    ensures
        i <= spec_first_nonblank(ls, i) <= ls.len(),
        spec_first_nonblank(ls, i) < ls.len() ==> spec_trim(ls[spec_first_nonblank(ls, i)]).len()
            > 0,
        forall|m: int| i <= m < spec_first_nonblank(ls, i) ==> spec_trim(ls[m]).len() == 0,
    decreases ls.len() - i,
{
    if i < ls.len() && spec_trim(ls[i]).len() == 0 {
        lemma_first_nonblank_props(ls, i + 1);
    }
}

/// The title derived from a body: its first non-blank line, trimmed and cut
/// to 80 characters, or nothing when every line is blank.
pub open spec fn spec_derive_title(body: Seq<char>) -> Option<Seq<char>> {
    let ls = spec_lines(body);
    let i = spec_first_nonblank(ls, 0);
    if 0 <= i && i < ls.len() {
        let t = spec_trim(ls[i]);
        Some(
            t.take(
                if t.len() < 80 {
                    t.len() as int
                } else {
                    80
                },
            ),
        )
    } else {
        None
    }
}

/// Derives a title from a body's first non-blank line.
pub fn derive_title(body: &str) -> (r: Option<String>)
    ensures
        opt_view(r) == spec_derive_title(body@),
{
    let chars = chars_of(body);
    let lines = split_lines(&chars);
    let ghost ls = lines@.map_values(|l: Vec<char>| l@);
    let mut i: usize = 0;
    while i < lines.len() && trim_chars(&lines[i]).len() == 0
        invariant
            0 <= i <= ls.len(),
            ls == lines@.map_values(|l: Vec<char>| l@),
            ls.len() == lines@.len(),
            forall|m: int| 0 <= m < i ==> spec_trim(#[trigger] ls[m]).len() == 0,
        decreases ls.len() - i,
    {
        i = i + 1;
    }
    proof {
        lemma_first_nonblank_props(ls, 0);
        assert(spec_first_nonblank(ls, 0) == i as int) by {
            let f = spec_first_nonblank(ls, 0);
            if f < i as int {
                assert(spec_trim(ls[f]).len() > 0);
            } else if f > i as int {
                assert(i < lines.len());
                assert(spec_trim(ls[i as int]).len() == 0);
            }
        }
    }
    if i < lines.len() {
        let t = trim_chars(&lines[i]);
        let cut = if t.len() < 80 {
            t.len()
        } else {
            80
        };
        let tt = subvec(&t, 0, cut);
        proof {
            assert(tt@ =~= t@.take(cut as int));
        }
        Some(string_of_chars(&tt))
    } else {
        None
    }
}

/// A sequence of cell texts with empty edge tokens removed.
pub open spec fn drop_empty_edges(ts: Seq<Seq<char>>) -> Seq<Seq<char>> {
    let a = if ts.len() > 0 && ts[0].len() == 0 {
        ts.drop_first()
    } else {
        ts
    };
    if a.len() > 0 && a.last().len() == 0 {
        a.drop_last()
    } else {
        a
    }
}

/// The cells of one table line: the trimmed line split on `|`, each token
/// trimmed, with empty edge tokens dropped.
pub open spec fn cells_of(l: Seq<char>) -> Seq<Seq<char>> {
    drop_empty_edges(spec_split_on(spec_trim(l), '|').map_values(|t: Seq<char>| spec_trim(t)))
}

/// Whether a line, trimmed, both starts and ends with `|`.
pub open spec fn is_pipe_line(l: Seq<char>) -> bool {
    let t = spec_trim(l);
    t.len() >= 1 && t[0] == '|' && t.last() == '|'
}

/// Index of the first pipe line at or after `i`, or the line count.
pub open spec fn first_pipe_from(ls: Seq<Seq<char>>, i: int) -> int
    decreases ls.len() - i,
{
    if i < 0 || i >= ls.len() {
        ls.len() as int
    } else if is_pipe_line(ls[i]) {
        i
    } else {
        first_pipe_from(ls, i + 1)
    }
}

/// Index of the first non-pipe line at or after `i`, or the line count.
pub open spec fn first_nonpipe_from(ls: Seq<Seq<char>>, i: int) -> int
    decreases ls.len() - i,
{
    if i < 0 || i >= ls.len() {
        ls.len() as int
    } else if !is_pipe_line(ls[i]) {
        i
    } else {
        first_nonpipe_from(ls, i + 1)
    }
}

/// Bounds and characterization of the first pipe line.
pub proof fn lemma_first_pipe_props(ls: Seq<Seq<char>>, i: int)
    requires
        0 <= i <= ls.len(),
    ensures
        i <= first_pipe_from(ls, i) <= ls.len(),
        first_pipe_from(ls, i) < ls.len() ==> is_pipe_line(ls[first_pipe_from(ls, i)]),
        forall|m: int| i <= m < first_pipe_from(ls, i) ==> !is_pipe_line(ls[m]),
    decreases ls.len() - i,
{
    if i < ls.len() && !is_pipe_line(ls[i]) {
        lemma_first_pipe_props(ls, i + 1);
    }
}

/// Bounds and characterization of the first non-pipe line.
pub proof fn lemma_first_nonpipe_props(ls: Seq<Seq<char>>, i: int)
    requires
        0 <= i <= ls.len(),
    ensures
        i <= first_nonpipe_from(ls, i) <= ls.len(),
        first_nonpipe_from(ls, i) < ls.len() ==> !is_pipe_line(ls[first_nonpipe_from(ls, i)]),
        forall|m: int| i <= m < first_nonpipe_from(ls, i) ==> is_pipe_line(ls[m]),
    decreases ls.len() - i,
{
    if i < ls.len() && is_pipe_line(ls[i]) {
        lemma_first_nonpipe_props(ls, i + 1);
    }
}

/// A row fitted to the header count: truncated when longer, padded with
/// empty cells when shorter — never rejected.
pub open spec fn fit_row(row: Seq<Seq<char>>, n: int) -> Seq<Seq<char>> {
    if row.len() >= n {
        row.take(n)
    } else {
        row + Seq::new((n - row.len()) as nat, |k: int| Seq::<char>::empty())
    }
}

/// The data rows of the table lines in `[from, end)`, each fitted to `n`
/// cells.
pub open spec fn spec_rows(ls: Seq<Seq<char>>, from: int, end: int, n: int) -> Seq<
    Seq<Seq<char>>,
>
    decreases end - from,
{
    if 0 <= from && from < end && end <= ls.len() {
        seq![fit_row(cells_of(ls[from]), n)] + spec_rows(ls, from + 1, end, n)
    } else {
        Seq::empty()
    }
}

/// The markdown table recovered from a line sequence, if any: the first
/// contiguous run of pipe lines, its first line the headers, its second line
/// a separator that is skipped, the rest data rows fitted to the header
/// count. There is no table when the run is shorter than two lines, the
/// headers are empty, or no data row results.
pub open spec fn spec_markdown_table_lines(ls: Seq<Seq<char>>) -> Option<TableView> {
    let start = first_pipe_from(ls, 0);
    let end = first_nonpipe_from(ls, start);
    if end - start < 2 {
        None
    } else {
        let headers = cells_of(ls[start]);
        if headers.len() == 0 {
            None
        } else {
            let rows = spec_rows(ls, start + 2, end, headers.len() as int);
            if rows.len() == 0 {
                None
            } else {
                Some(TableView { headers, rows })
            }
        }
    }
}

/// The markdown table recovered from a text, if any: the line-level scan
/// applied to the text's lines.
pub open spec fn spec_markdown_table(s: Seq<char>) -> Option<TableView> {
    spec_markdown_table_lines(spec_lines(s))
}

/// Executable pipe-line test.
fn is_pipe_line_vec(l: &Vec<char>) -> (r: bool)
    ensures
        r == is_pipe_line(l@),
{
    let t = trim_chars(l);
    t.len() >= 1 && t[0] == '|' && t[t.len() - 1] == '|'
}

/// The cells of one table line.
fn cells_of_vec(l: &Vec<char>) -> (r: Vec<Vec<char>>)
    ensures
        r@.map_values(|x: Vec<char>| x@) == cells_of(l@),
{
    let t = trim_chars(l);
    let parts = split_on_char(&t, '|');
    let ghost pv = parts@.map_values(|x: Vec<char>| x@);
    let mut cells: Vec<Vec<char>> = Vec::new();
    let mut i: usize = 0;
    proof {
        assert(cells@.map_values(|x: Vec<char>| x@) =~= pv.take(0).map_values(
            |x: Seq<char>| spec_trim(x),
        ));
    }
    while i < parts.len()
        invariant
            0 <= i <= parts@.len(),
            pv == parts@.map_values(|x: Vec<char>| x@),
            pv.len() == parts@.len(),
            cells@.map_values(|x: Vec<char>| x@) == pv.take(i as int).map_values(
                |x: Seq<char>| spec_trim(x),
            ),
        decreases parts@.len() - i,
    {
        let ghost prev = cells@.map_values(|x: Vec<char>| x@);
        let ghost oldc = cells@;
        let t = trim_chars(&parts[i]);
        let ghost tv = t@;
        cells.push(t);
        proof {
            assert(prev.len() == i as int);
            assert(oldc.len() == i as int);
            assert(cells@.len() == i + 1);
            assert(i < pv.len());
            assert(pv.take(i + 1).len() == i + 1);
            let lhs = cells@.map_values(|x: Vec<char>| x@);
            let rhs = pv.take(i + 1).map_values(|x: Seq<char>| spec_trim(x));
            assert(lhs.len() == i + 1);
            assert(rhs.len() == i + 1);
            assert forall|m: int| 0 <= m < lhs.len() implies lhs[m] == rhs[m] by {
                assert(lhs[m] == cells@[m]@);
                assert(rhs[m] == spec_trim(pv.take(i + 1)[m]));
                assert(pv.take(i + 1)[m] == pv[m]);
                if m < i {
                    assert(cells@[m] == oldc[m]);
                    assert(prev[m] == oldc[m]@);
                    assert(prev[m] == spec_trim(pv[m]));
                } else {
                    assert(cells@[m]@ == tv);
                    assert(tv == spec_trim(pv[i as int]));
                }
            }
            assert(lhs =~= rhs);
        }
        i = i + 1;
    }
    proof {
        assert(pv.take(pv.len() as int) =~= pv);
    }
    let ghost ts = pv.map_values(|x: Seq<char>| spec_trim(x));
    if cells.len() > 0 && cells[0].len() == 0 {
        cells.remove(0);
        proof {
            assert(cells@.map_values(|x: Vec<char>| x@) =~= ts.drop_first());
        }
    }
    let ghost a = cells@.map_values(|x: Vec<char>| x@);
    if cells.len() > 0 && cells[cells.len() - 1].len() == 0 {
        cells.remove(cells.len() - 1);
        proof {
            assert(cells@.map_values(|x: Vec<char>| x@) =~= a.drop_last());
        }
    }
    cells
}

/// Fits a row to the header count by truncation or padding with empty cells.
fn fit_row_vec(row: Vec<Vec<char>>, n: usize) -> (r: Vec<Vec<char>>)
    ensures
        r@.map_values(|x: Vec<char>| x@) == fit_row(
            row@.map_values(|x: Vec<char>| x@),
            n as int,
        ),
{
    let ghost rv = row@.map_values(|x: Vec<char>| x@);
    let mut row = row;
    if row.len() >= n {
        row.truncate(n);
        proof {
            assert(row@.map_values(|x: Vec<char>| x@) =~= rv.take(n as int));
        }
        row
    } else {
        let ghost start_len = row@.len();
        while row.len() < n
            invariant
                rv.len() <= row@.len() <= n,
                rv == row@.map_values(|x: Vec<char>| x@).take(rv.len() as int),
                forall|m: int|
                    rv.len() <= m < row@.len() ==> (#[trigger] row@[m])@ == Seq::<char>::empty(),
            decreases n - row@.len(),
        {
            let e: Vec<char> = Vec::new();
            row.push(e);
        }
        proof {
            let fv = row@.map_values(|x: Vec<char>| x@);
            assert(fv =~= rv + Seq::new((n - rv.len()) as nat, |k: int| Seq::<char>::empty())) by {
                assert(rv =~= fv.take(rv.len() as int));
                assert forall|m: int| 0 <= m < fv.len() implies fv[m] == (rv + Seq::new(
                    (n - rv.len()) as nat,
                    |k: int| Seq::<char>::empty(),
                ))[m] by {
                    if m < rv.len() {
                        assert(fv[m] == fv.take(rv.len() as int)[m]);
                    } else {
                        assert(fv[m] == (row@[m])@);
                    }
                }
            }
        }
        row
    }
}

/// Converts character-vector cells to strings.
fn strings_of(v: Vec<Vec<char>>) -> (r: Vec<String>)
    ensures
        r@.map_values(|s: String| s@) == v@.map_values(|x: Vec<char>| x@),
{
    let ghost vv = v@.map_values(|x: Vec<char>| x@);
    let mut r: Vec<String> = Vec::new();
    let mut i: usize = 0;
    proof {
        assert(r@.map_values(|s: String| s@) =~= vv.take(0));
    }
    while i < v.len()
        invariant
            0 <= i <= v@.len(),
            vv == v@.map_values(|x: Vec<char>| x@),
            vv.len() == v@.len(),
            r@.map_values(|s: String| s@) == vv.take(i as int),
        decreases v@.len() - i,
    {
        r.push(string_of_chars(&v[i]));
        proof {
            assert(vv.take(i + 1) =~= vv.take(i as int).push(vv[i as int]));
            assert(r@.map_values(|s: String| s@) =~= vv.take(i + 1));
        }
        i = i + 1;
    }
    proof {
        assert(vv.take(vv.len() as int) =~= vv);
    }
    r
}

/// Scans a text line by line for a markdown table: the first contiguous run
/// of lines that both start and end with `|`; the first line gives the
/// headers, the second is a separator and is skipped, later lines are data
/// rows padded or truncated to the header count. Returns nothing when no
/// data row results.
pub fn parse_markdown_table(text: &str) -> (r: Option<TableSpec>)
    ensures
        match r {
            Some(t) => spec_markdown_table(text@) == Some(t@),
            None => spec_markdown_table(text@) is None,
        },
{
    let chars = chars_of(text);
    let lines = split_lines(&chars);
    let ghost ls = lines@.map_values(|l: Vec<char>| l@);
    let mut start: usize = 0;
    while start < lines.len() && !is_pipe_line_vec(&lines[start])
        invariant
            0 <= start <= ls.len(),
            ls == lines@.map_values(|l: Vec<char>| l@),
            ls.len() == lines@.len(),
            forall|m: int| 0 <= m < start ==> !is_pipe_line(#[trigger] ls[m]),
        decreases ls.len() - start,
    {
        start = start + 1;
    }
    proof {
        lemma_first_pipe_props(ls, 0);
        assert(first_pipe_from(ls, 0) == start as int) by {
            let f = first_pipe_from(ls, 0);
            if f < start as int {
                assert(is_pipe_line(ls[f]));
            } else if f > start as int {
                assert(start < lines.len());
                assert(!is_pipe_line(ls[start as int]));
            }
        }
    }
    let mut end: usize = start;
    while end < lines.len() && is_pipe_line_vec(&lines[end])
        invariant
            start <= end <= ls.len(),
            ls == lines@.map_values(|l: Vec<char>| l@),
            ls.len() == lines@.len(),
            forall|m: int| start <= m < end ==> is_pipe_line(#[trigger] ls[m]),
        decreases ls.len() - end,
    {
        end = end + 1;
    }
    proof {
        lemma_first_nonpipe_props(ls, start as int);
        assert(first_nonpipe_from(ls, start as int) == end as int) by {
            let f = first_nonpipe_from(ls, start as int);
            if f < end as int {
                assert(is_pipe_line(ls[f]));
            } else if f > end as int {
                assert(end < lines.len());
                assert(is_pipe_line(ls[end as int]));
            }
        }
    }
    if end - start < 2 {
        return None;
    }
    let header_cells = cells_of_vec(&lines[start]);
    if header_cells.len() == 0 {
        return None;
    }
    let n = header_cells.len();
    let ghost nn = n as int;
    let mut rows: Vec<Vec<Vec<char>>> = Vec::new();
    let mut k: usize = start + 2;
    proof {
        assert(rows@.map_values(
            |rw: Vec<Vec<char>>| rw@.map_values(|x: Vec<char>| x@),
        ) + spec_rows(ls, k as int, end as int, nn) =~= spec_rows(ls, k as int, end as int, nn));
    }
    while k < end
        invariant
            start + 2 <= k <= end || k == start + 2,
            k <= end,
            end <= ls.len(),
            nn == n as int,
            ls == lines@.map_values(|l: Vec<char>| l@),
            ls.len() == lines@.len(),
            spec_rows(ls, start + 2, end as int, nn) == rows@.map_values(
                |rw: Vec<Vec<char>>| rw@.map_values(|x: Vec<char>| x@),
            ) + spec_rows(ls, k as int, end as int, nn),
        decreases end - k,
    {
        let ghost prev = rows@.map_values(|rw: Vec<Vec<char>>| rw@.map_values(|x: Vec<char>| x@));
        let cells = cells_of_vec(&lines[k]);
        let fitted = fit_row_vec(cells, n);
        rows.push(fitted);
        proof {
            assert(spec_rows(ls, k as int, end as int, nn) == seq![
                fit_row(cells_of(ls[k as int]), nn),
            ] + spec_rows(ls, k + 1, end as int, nn));
            assert(rows@.map_values(|rw: Vec<Vec<char>>| rw@.map_values(|x: Vec<char>| x@)) =~= prev
                + seq![fit_row(cells_of(ls[k as int]), nn)]);
            assert(prev + (seq![fit_row(cells_of(ls[k as int]), nn)] + spec_rows(
                ls,
                k + 1,
                end as int,
                nn,
            )) =~= (prev + seq![fit_row(cells_of(ls[k as int]), nn)]) + spec_rows(
                ls,
                k + 1,
                end as int,
                nn,
            ));
        }
        k = k + 1;
    }
    proof {
        assert(spec_rows(ls, k as int, end as int, nn) =~= Seq::<Seq<Seq<char>>>::empty());
        assert(rows@.map_values(|rw: Vec<Vec<char>>| rw@.map_values(|x: Vec<char>| x@))
            + Seq::<Seq<Seq<char>>>::empty() =~= rows@.map_values(
            |rw: Vec<Vec<char>>| rw@.map_values(|x: Vec<char>| x@),
        ));
    }
    if rows.len() == 0 {
        return None;
    }
    let headers = strings_of(header_cells);
    let mut out_rows: Vec<Vec<String>> = Vec::new();
    let ghost rv = rows@.map_values(|rw: Vec<Vec<char>>| rw@.map_values(|x: Vec<char>| x@));
    let mut i: usize = 0;
    proof {
        assert(out_rows@.map_values(|rw: Vec<String>| rw@.map_values(|c: String| c@)) =~= rv.take(
            0,
        ));
    }
    while i < rows.len()
        invariant
            0 <= i <= rows@.len(),
            rv == rows@.map_values(|rw: Vec<Vec<char>>| rw@.map_values(|x: Vec<char>| x@)),
            rv.len() == rows@.len(),
            out_rows@.map_values(|rw: Vec<String>| rw@.map_values(|c: String| c@)) == rv.take(
                i as int,
            ),
        decreases rows@.len() - i,
    {
        let row = clone_row(&rows[i]);
        out_rows.push(strings_of(row));
        proof {
            assert(rv.take(i + 1) =~= rv.take(i as int).push(rv[i as int]));
            assert(out_rows@.map_values(|rw: Vec<String>| rw@.map_values(|c: String| c@))
                =~= rv.take(i + 1));
        }
        i = i + 1;
    }
    proof {
        assert(rv.take(rv.len() as int) =~= rv);
    }
    let table = TableSpec { headers, rows: out_rows };
    proof {
        assert(table@.headers =~= cells_of(ls[start as int]));
        assert(table@.rows =~= spec_rows(ls, start + 2, end as int, nn));
    }
    Some(table)
}

/// Copies one row of character-vector cells.
fn clone_row(row: &Vec<Vec<char>>) -> (r: Vec<Vec<char>>)
    ensures
        r@.map_values(|x: Vec<char>| x@) == row@.map_values(|x: Vec<char>| x@),
{
    let mut r: Vec<Vec<char>> = Vec::new();
    let mut i: usize = 0;
    proof {
        assert(r@.map_values(|x: Vec<char>| x@) =~= row@.map_values(|x: Vec<char>| x@).take(0));
    }
    while i < row.len()
        invariant
            0 <= i <= row@.len(),
            r@.map_values(|x: Vec<char>| x@) == row@.map_values(|x: Vec<char>| x@).take(i as int),
        decreases row@.len() - i,
    {
        r.push(subvec(&row[i], 0, row[i].len()));
        proof {
            let m = row@.map_values(|x: Vec<char>| x@);
            assert(row@[i as int]@.subrange(0, row@[i as int]@.len() as int) =~= m[i as int]);
            assert(m.take(i + 1) =~= m.take(i as int).push(m[i as int]));
            assert(r@.map_values(|x: Vec<char>| x@) =~= m.take(i + 1));
        }
        i = i + 1;
    }
    proof {
        let m = row@.map_values(|x: Vec<char>| x@);
        assert(m.take(m.len() as int) =~= m);
    }
    r
}

/// A fenced-block attempt: the text after the first occurrence of the
/// marker, up to the next closing fence, trimmed and parsed as a directive.
pub open spec fn spec_fence_attempt(s: Seq<char>, marker: Seq<char>) -> Option<
    (Seq<char>, TableView),
> {
    match crate::text::spec_find_sub(s, marker) {
        Some(i) => {
            let after = s.skip(i + marker.len());
            match crate::text::spec_find_sub(after, "```"@) {
                Some(e) => crate::json::spec_parse_directive(spec_trim(after.take(e))),
                None => None,
            }
        },
        None => None,
    }
}

/// A brace-span attempt: the span from the first `{` to the last `}`,
/// parsed as a directive.
pub open spec fn spec_brace_attempt(s: Seq<char>) -> Option<(Seq<char>, TableView)> {
    let fi = crate::text::first_index_of(s, '{', 0);
    match crate::text::spec_rfind_char(s, '}') {
        Some(li) => if fi < s.len() && fi < li {
            crate::json::spec_parse_directive(s.subrange(fi, li + 1))
        } else {
            None
        },
        None => None,
    }
}

/// The file directive recovered from advisor text, attempted in fixed
/// fallback order with the first success winning: a `json`-tagged fence, a
/// bare fence, then the first-`{`-to-last-`}` span.
pub open spec fn spec_extract_file_intent(s: Seq<char>) -> Option<(Seq<char>, TableView)> {
    match spec_fence_attempt(s, "```json"@) {
        Some(d) => Some(d),
        None => match spec_fence_attempt(s, "```"@) {
            Some(d) => Some(d),
            None => spec_brace_attempt(s),
        },
    }
}

/// Converts parsed rows of character cells into rows of strings.
fn rows_to_strings(rows: Vec<Vec<Vec<char>>>) -> (r: Vec<Vec<String>>)
    ensures
        r@.map_values(|rw: Vec<String>| rw@.map_values(|c: String| c@)) == rows@.map_values(
            |rw: Vec<Vec<char>>| rw@.map_values(|x: Vec<char>| x@),
        ),
{
    let ghost rv = rows@.map_values(|rw: Vec<Vec<char>>| rw@.map_values(|x: Vec<char>| x@));
    let mut out: Vec<Vec<String>> = Vec::new();
    let mut i: usize = 0;
    proof {
        assert(out@.map_values(|rw: Vec<String>| rw@.map_values(|c: String| c@)) =~= rv.take(0));
    }
    while i < rows.len()
        invariant
            0 <= i <= rows@.len(),
            rv == rows@.map_values(|rw: Vec<Vec<char>>| rw@.map_values(|x: Vec<char>| x@)),
            rv.len() == rows@.len(),
            out@.map_values(|rw: Vec<String>| rw@.map_values(|c: String| c@)) == rv.take(i as int),
        decreases rows@.len() - i,
    {
        let row = clone_row(&rows[i]);
        out.push(strings_of(row));
        proof {
            assert(rv.take(i + 1) =~= rv.take(i as int).push(rv[i as int]));
            assert(out@.map_values(|rw: Vec<String>| rw@.map_values(|c: String| c@)) =~= rv.take(
                i + 1,
            ));
        }
        i = i + 1;
    }
    proof {
        assert(rv.take(rv.len() as int) =~= rv);
    }
    out
}

/// One fenced-block attempt on the text.
fn fence_attempt(v: &Vec<char>, marker: &Vec<char>) -> (r: Option<(String, TableSpec)>)
    ensures
        match r {
            Some(p) => spec_fence_attempt(v@, marker@) == Some((p.0@, p.1@)),
            None => spec_fence_attempt(v@, marker@) is None,
        },
{
    let fence_str: &str = "```";
    let n = v.len();
    if let Some(i) = crate::text::find_sub(v, marker) {
        proof {
            crate::text::lemma_find_sub_props(v@, marker@);
        }
        let after = subvec(v, i + marker.len(), n);
        proof {
            assert(after@ =~= v@.skip(i + marker@.len()));
        }
        let endm = chars_of(fence_str);
        if let Some(e) = crate::text::find_sub(&after, &endm) {
            proof {
                crate::text::lemma_find_sub_props(after@, endm@);
            }
            let raw_content = subvec(&after, 0, e);
            proof {
                assert(raw_content@ =~= after@.take(e as int));
            }
            let content = trim_chars(&raw_content);
            match crate::json::parse_directive_chars(&content) {
                Some((fmt, cells)) => {
                    let (hs, rs) = cells;
                    let f = string_of_chars(&fmt);
                    let headers = strings_of(hs);
                    let rows = rows_to_strings(rs);
                    let table = TableSpec { headers, rows };
                    Some((f, table))
                },
                None => None,
            }
        } else {
            None
        }
    } else {
        None
    }
}

/// The brace-span attempt on the text.
fn brace_attempt(v: &Vec<char>) -> (r: Option<(String, TableSpec)>)
    ensures
        match r {
            Some(p) => spec_brace_attempt(v@) == Some((p.0@, p.1@)),
            None => spec_brace_attempt(v@) is None,
        },
{
    let mut fi: usize = 0;
    while fi < v.len() && v[fi] != '{'
        invariant
            0 <= fi <= v@.len(),
            forall|m: int| 0 <= m < fi ==> v@[m] != '{',
        decreases v@.len() - fi,
    {
        fi = fi + 1;
    }
    proof {
        crate::text::lemma_first_index_of_props(v@, '{', 0);
        assert(crate::text::first_index_of(v@, '{', 0) == fi as int) by {
            let f = crate::text::first_index_of(v@, '{', 0);
            if f < fi as int {
                assert(v@[f] == '{');
            } else if f > fi as int {
                assert(fi < v.len());
                assert(v@[fi as int] == '{');
            }
        }
    }
    let n = v.len();
    match crate::text::rfind_char(v, '}') {
        Some(li) => {
            proof {
                crate::text::lemma_rfind_char_props(v@, '}');
            }
            if fi < li {
                let span = subvec(v, fi, li + 1);
                proof {
                    assert(span@ =~= v@.subrange(fi as int, li + 1));
                }
                match crate::json::parse_directive_chars(&span) {
                    Some((fmt, cells)) => {
                        let (hs, rs) = cells;
                        let f = string_of_chars(&fmt);
                        let headers = strings_of(hs);
                        let rows = rows_to_strings(rs);
                        let table = TableSpec { headers, rows };
                        Some((f, table))
                    },
                    None => None,
                }
            } else {
                None
            }
        },
        None => None,
    }
}

/// Scans advisor text for a file directive: first a `json`-tagged fenced
/// block, then a bare fenced block, then the span from the first `{` to the
/// last `}`; the block's contents must parse as the directive grammar.
/// Absence of a directive is a normal outcome, not an error.
pub fn extract_file_intent(text: &str) -> (r: Option<(String, TableSpec)>)
    ensures
        match r {
            Some(p) => spec_extract_file_intent(text@) == Some((p.0@, p.1@)),
            None => spec_extract_file_intent(text@) is None,
        },
{
    let chars = chars_of(text);
    let mj: &str = "```json";
    let m1 = chars_of(mj);
    if let Some(d) = fence_attempt(&chars, &m1) {
        return Some(d);
    }
    let mb: &str = "```";
    let m2 = chars_of(mb);
    if let Some(d) = fence_attempt(&chars, &m2) {
        return Some(d);
    }
    brace_attempt(&chars)
}

/// The full structured-output extraction: the explicit title and body from
/// the title pass, and the directive from the body — a parsed JSON directive
/// first, else a markdown table with the format keyword-scanned from the
/// user's own message.
pub open spec fn spec_extract_structured(raw: Seq<char>, user_msg: Seq<char>) -> (
    Option<Seq<char>>,
    Seq<char>,
    Option<(Seq<char>, TableView)>,
) {
    let tb = spec_extract_title(raw);
    let d = match spec_extract_file_intent(tb.1) {
        Some(p) => Some(p),
        None => match spec_markdown_table(tb.1) {
            Some(t) => Some((spec_detect_format(user_msg), t)),
            None => None,
        },
    };
    (tb.0, tb.1, d)
}

/// Extracts from raw advisor output an optional explicit title, the body
/// with the title directive stripped, and an optional file directive.
pub fn extract_structured_output(raw_advisor_text: &str, original_user_text: &str) -> (r: (
    Option<String>,
    String,
    Option<(String, TableSpec)>,
))
    ensures
        opt_view(r.0) == spec_extract_structured(raw_advisor_text@, original_user_text@).0,
        r.1@ == spec_extract_structured(raw_advisor_text@, original_user_text@).1,
        match r.2 {
            Some(p) => spec_extract_structured(raw_advisor_text@, original_user_text@).2 == Some(
                (p.0@, p.1@),
            ),
            None => spec_extract_structured(raw_advisor_text@, original_user_text@).2 is None,
        },
{
    let (title, body) = extract_title(raw_advisor_text);
    let directive = match extract_file_intent(body.as_str()) {
        Some(p) => Some(p),
        None => match parse_markdown_table(body.as_str()) {
            Some(t) => Some((detect_format_from_message(original_user_text), t)),
            None => None,
        },
    };
    (title, body, directive)
}

/// Dropping leading lines preserves the first pipe index, shifted.
proof fn lemma_first_pipe_shift(ls: Seq<Seq<char>>, k: int)
    requires
        0 <= k <= ls.len(),
        forall|m: int| 0 <= m < k ==> !is_pipe_line(#[trigger] ls[m]),
    ensures
        first_pipe_from(ls.skip(k), 0) == first_pipe_from(ls, 0) - k,
{
    let t = ls.skip(k);
    lemma_first_pipe_props(ls, 0);
    let fp = first_pipe_from(ls, 0);
    assert(fp >= k) by {
        if fp < k {
            assert(is_pipe_line(ls[fp]));
        }
    }
    let g = fp - k;
    lemma_first_pipe_props(t, 0);
    let f = first_pipe_from(t, 0);
    assert forall|m: int| 0 <= m < g implies !is_pipe_line(#[trigger] t[m]) by {
        assert(t[m] == ls[m + k]);
    }
    if f < g {
        assert(is_pipe_line(t[f]));
    } else if f > g {
        assert(g < t.len());
        assert(t[g] == ls[fp]);
        assert(is_pipe_line(t[g]));
    }
}

/// Dropping leading lines preserves the end of the pipe run, shifted.
proof fn lemma_first_nonpipe_shift(ls: Seq<Seq<char>>, k: int, start: int)
    requires
        0 <= k <= start <= ls.len(),
    ensures
        first_nonpipe_from(ls.skip(k), start - k) == first_nonpipe_from(ls, start) - k,
{
    let t = ls.skip(k);
    lemma_first_nonpipe_props(ls, start);
    let e = first_nonpipe_from(ls, start);
    let g = e - k;
    lemma_first_nonpipe_props(t, start - k);
    let f = first_nonpipe_from(t, start - k);
    assert forall|m: int| start - k <= m < g implies is_pipe_line(#[trigger] t[m]) by {
        assert(t[m] == ls[m + k]);
    }
    if f < g {
        assert(is_pipe_line(t[f]));
        assert(t[f] == ls[f + k]);
        assert(!is_pipe_line(ls[e]) || e == ls.len());
        if f + k < e {
            assert(is_pipe_line(ls[f + k]));
        }
        assert(f + k >= e);
        assert(g <= t.len());
        assert(!is_pipe_line(t[f]) || f == t.len());
    } else if f > g {
        assert(g < t.len());
        assert(t[g] == ls[e]);
        assert(e < ls.len());
        assert(!is_pipe_line(ls[e]));
        assert(is_pipe_line(t[g]));
    }
}

/// Dropping leading lines shifts the data rows without changing them.
proof fn lemma_rows_shift(ls: Seq<Seq<char>>, k: int, from: int, end: int, n: int)
    requires
        0 <= k,
        k <= from,
        end <= ls.len(),
    ensures
        spec_rows(ls.skip(k), from - k, end - k, n) == spec_rows(ls, from, end, n),
    decreases end - from,
{
    let t = ls.skip(k);
    if 0 <= from && from < end && end <= ls.len() {
        assert(t[from - k] == ls[from]);
        lemma_rows_shift(ls, k, from + 1, end, n);
    } else {
        assert(spec_rows(t, from - k, end - k, n) == Seq::<Seq<Seq<char>>>::empty());
        assert(spec_rows(ls, from, end, n) == Seq::<Seq<Seq<char>>>::empty());
    }
}

/// Law: the markdown scan ignores leading non-pipe lines. Dropping any
/// prefix of lines that are not pipe lines leaves the recovered table
/// unchanged — so stripping a title directive or blank lines off the front
/// of a body never changes its table.
pub proof fn lemma_markdown_drop_leading_nonpipe(ls: Seq<Seq<char>>, k: int)
    requires
        0 <= k <= ls.len(),
        forall|m: int| 0 <= m < k ==> !is_pipe_line(#[trigger] ls[m]),
    ensures
        spec_markdown_table_lines(ls.skip(k)) == spec_markdown_table_lines(ls),
{
    let t = ls.skip(k);
    lemma_first_pipe_shift(ls, k);
    let start = first_pipe_from(ls, 0);
    lemma_first_pipe_props(ls, 0);
    assert(start >= k) by {
        if start < k {
            assert(is_pipe_line(ls[start]));
        }
    }
    lemma_first_nonpipe_shift(ls, k, start);
    let end = first_nonpipe_from(ls, start);
    lemma_first_nonpipe_props(ls, start);
    if end - start >= 2 {
        assert(t[start - k] == ls[start]);
        let headers = cells_of(ls[start]);
        if headers.len() > 0 {
            lemma_rows_shift(ls, k, start + 2, end, headers.len() as int);
        }
    }
}

/// A line whose trimmed text starts with the title marker is not a pipe
/// line, and a blank line is not a pipe line.
pub proof fn lemma_title_line_not_pipe(l: Seq<char>)
    requires
        spec_starts_with(spec_trim(l), "TITLE:"@) || spec_trim(l).len() == 0,
    ensures
        !is_pipe_line(l),
{
    reveal_strlit("TITLE:");
    if spec_starts_with(spec_trim(l), "TITLE:"@) {
        assert(spec_trim(l).subrange(0, 6)[0] == spec_trim(l)[0]);
        assert(spec_trim(l)[0] == 'T');
    }
}

/// Law: table-fallback extraction is idempotent. For a text whose lines
/// survive a join (no line ends in a bare carriage return, and the final
/// line is non-empty), stripping the title directive never changes the
/// markdown table: the scan over the already-extracted body recovers the
/// same table as the scan over the original text.
pub proof fn lemma_table_fallback_idempotent(raw: Seq<char>)
    requires
        forall|i: int|
            0 <= i < spec_lines(raw).len() ==> !((#[trigger] spec_lines(raw)[i]).len() > 0
                && spec_lines(raw)[i].last() == '\r'),
        spec_lines(raw).len() > 0 ==> spec_lines(raw).last().len() > 0,
    ensures
        spec_markdown_table(spec_extract_title(raw).1) == spec_markdown_table(raw),
{
    let ls = spec_lines(raw);
    crate::text::lemma_lines_have_no_newline(raw);
    if ls.len() > 0 && spec_starts_with(spec_trim(ls[0]), "TITLE:"@) {
        let k: int = if ls.len() >= 2 && spec_trim(ls[1]).len() == 0 {
            2
        } else {
            1
        };
        let body = spec_extract_title(raw).1;
        if ls.len() >= 2 {
            assert(body == crate::text::spec_join_from(ls, k));
            assert forall|i: int| k <= i < ls.len() implies crate::text::joinable_line(
                #[trigger] ls[i],
            ) by {
                assert(crate::text::no_newline(ls[i]));
            }
            crate::text::lemma_lines_of_join(ls, k);
            assert(spec_lines(body) == ls.skip(k));
        } else {
            assert(body.len() == 0);
            assert(spec_lines(body) =~= Seq::<Seq<char>>::empty());
            assert(spec_lines(body) =~= ls.skip(1));
        }
        let kk: int = if ls.len() >= 2 {
            k
        } else {
            1
        };
        assert(spec_lines(body) == ls.skip(kk));
        assert forall|m: int| 0 <= m < kk implies !is_pipe_line(#[trigger] ls[m]) by {
            if m == 0 {
                lemma_title_line_not_pipe(ls[0]);
            } else {
                lemma_title_line_not_pipe(ls[1]);
            }
        }
        lemma_markdown_drop_leading_nonpipe(ls, kk);
    }
}

/// A directive payload wrapped in a `json`-tagged fenced block.
pub open spec fn fenced_json_block(payload: Seq<char>) -> Seq<char> {
    "```json\n"@ + payload + "\n```"@
}

/// Law: fenced round trip, localization half. For prose free of backticks
/// and a payload free of backticks, the `json`-tagged fence attempt on the
/// prose followed by the fenced payload yields exactly the parse of the
/// trimmed payload — so a table encoded as a fenced directive and appended
/// to arbitrary backtick-free prose is recovered unchanged whenever its
/// payload parses.
pub proof fn lemma_fenced_payload_is_recovered(prose: Seq<char>, payload: Seq<char>)
    requires
        forall|i: int| 0 <= i < prose.len() ==> (#[trigger] prose[i]) != '`',
        forall|i: int| 0 <= i < payload.len() ==> (#[trigger] payload[i]) != '`',
    ensures
        spec_fence_attempt(prose + fenced_json_block(payload), "```json"@)
            == crate::json::spec_parse_directive(spec_trim(payload)),
{
    reveal_strlit("```json");
    reveal_strlit("```json\n");
    reveal_strlit("```");
    reveal_strlit("\n```");
    let s = prose + fenced_json_block(payload);
    let m = "```json"@;
    let p = prose.len() as int;
    let plen = payload.len() as int;
    assert(m.len() == 7);
    assert("```json\n"@.len() == 8);
    assert("\n```"@.len() == 4);
    assert(s.len() == p + 8 + plen + 4);

    assert forall|t: int| 0 <= t < 7 implies #[trigger] s[p + t] == m[t] by {
        assert(s[p + t] == fenced_json_block(payload)[t]);
        assert(fenced_json_block(payload)[t] == "```json\n"@[t]);
    }
    assert(s.subrange(p, p + 7) =~= m);
    assert(spec_match_at(s, m, p));
    assert forall|j: int| 0 <= j < p implies !spec_match_at(s, m, j) by {
        if spec_match_at(s, m, j) {
            assert(s.subrange(j, j + 7)[0] == s[j]);
            assert(s[j] == prose[j]);
            assert(m[0] == '`');
        }
    }
    crate::text::lemma_find_sub_at(s, m, p);

    let after = s.skip(p + 7);
    assert(after =~= seq!['\n'] + payload + "\n```"@);
    let f = "```"@;
    let e = plen + 2;
    assert(after.len() == plen + 5);
    assert forall|t: int| 0 <= t < 3 implies #[trigger] after.subrange(e, e + 3)[t] == f[t] by {
        assert(after.subrange(e, e + 3)[t] == after[e + t]);
        assert(after[e + t] == "\n```"@[t + 1]);
    }
    assert(after.subrange(e, e + 3) =~= f);
    assert(spec_match_at(after, f, e));
    assert forall|j: int| 0 <= j < e implies !spec_match_at(after, f, j) by {
        if spec_match_at(after, f, j) {
            assert(after.subrange(j, j + 3)[0] == after[j]);
            assert(f[0] == '`');
            if j == 0 {
                assert(after[0] == '\n');
            } else if j <= plen {
                assert(after[j] == payload[j - 1]);
            } else {
                assert(after[j] == "\n```"@[0]);
            }
        }
    }
    crate::text::lemma_find_sub_at(after, f, e);

    assert(after.take(e) =~= seq!['\n'] + payload + seq!['\n']);
    assert(crate::text::is_space('\n'));
    crate::text::lemma_trim_concat_spaces(seq!['\n'], payload, seq!['\n']);
    assert(spec_trim(after.take(e)) == spec_trim(payload));
}

/// Law: fenced round trip. Whenever the trimmed payload parses as a
/// directive, the whole extractor applied to backtick-free prose followed by
/// the fenced payload returns exactly that directive.
pub proof fn lemma_fenced_round_trip(prose: Seq<char>, payload: Seq<char>)
    requires
        forall|i: int| 0 <= i < prose.len() ==> (#[trigger] prose[i]) != '`',
        forall|i: int| 0 <= i < payload.len() ==> (#[trigger] payload[i]) != '`',
        crate::json::spec_parse_directive(spec_trim(payload)) is Some,
    ensures
        spec_extract_file_intent(prose + fenced_json_block(payload))
            == crate::json::spec_parse_directive(spec_trim(payload)),
{
    lemma_fenced_payload_is_recovered(prose, payload);
}

/// The output format keyword-scanned from the user's own message: `csv` when
/// a CSV keyword occurs in the lowercased text, else `xlsx` for a
/// spreadsheet keyword, defaulting to `xlsx`.
pub open spec fn spec_detect_format(m: Seq<char>) -> Seq<char> {
    let l = spec_lower(m);
    if spec_contains(l, "csv"@) || spec_contains(l, "comma-separated"@) || spec_contains(
        l,
        ".csv"@,
    ) {
        "csv"@
    } else if spec_contains(l, "excel"@) || spec_contains(l, "xlsx"@) || spec_contains(
        l,
        ".xlsx"@,
    ) || spec_contains(l, "spreadsheet"@) {
        "xlsx"@
    } else {
        "xlsx"@
    }
}

/// Infers the requested file format from the user's message by keyword scan,
/// defaulting to a spreadsheet.
pub fn detect_format_from_message(message: &str) -> (r: String)
    ensures
        r@ == spec_detect_format(message@),
{
    let chars = chars_of(message);
    let lower = to_lower(&chars);
    let csv: &str = "csv";
    let comma: &str = "comma-separated";
    let dot_csv: &str = ".csv";
    let excel: &str = "excel";
    let xlsx: &str = "xlsx";
    let dot_xlsx: &str = ".xlsx";
    let sheet: &str = "spreadsheet";
    if contains_sub(&lower, &chars_of(csv)) || contains_sub(&lower, &chars_of(comma))
        || contains_sub(&lower, &chars_of(dot_csv)) {
        let r: &str = "csv";
        r.to_owned()
    } else if contains_sub(&lower, &chars_of(excel)) || contains_sub(&lower, &chars_of(xlsx))
        || contains_sub(&lower, &chars_of(dot_xlsx)) || contains_sub(&lower, &chars_of(sheet)) {
        let r: &str = "xlsx";
        r.to_owned()
    } else {
        let r: &str = "xlsx";
        r.to_owned()
    }
}

} // verus!
