//! The table layout engine: cells flattened to printable strings, per-column
//! widths, and aligned pipe-delimited Markdown rows with a header and
//! divider pair, synthesized when the source table has no header row.

use vstd::prelude::*;
use vstd::string::*;
use crate::document::{MarkdownDocument, MarkdownTableRow, TableRowV, views_of_rows};
use crate::paragraph::{MarkdownParagraph, ParagraphV, spec_paragraph_markdown};
use crate::style::{StyleEntry, StyleEntryV, NumberingV};
use crate::numbering::NumberingCounter;
use crate::text::{repeat_char, spec_repeat_char};

verus! {

pub open spec fn views_of_strings(ss: Seq<String>) -> Seq<Seq<char>> {
    ss.map_values(|s: String| s@)
}

pub open spec fn views_of_simple_rows(rows: Seq<(bool, Vec<String>)>) -> Seq<
    (bool, Seq<Seq<char>>),
> {
    rows.map_values(|r: (bool, Vec<String>)| (r.0, views_of_strings(r.1@)))
}

pub open spec fn views_of_usizes(ws: Seq<usize>) -> Seq<nat> {
    ws.map_values(|w: usize| w as nat)
}

/// The flattened text of one cell, and the counter table after rendering
/// it: its paragraphs rendered in order, a `<br/>` marker after each one
/// but the last. `n` counts the paragraphs already folded in.
pub open spec fn spec_cell_text(
    cell: Seq<ParagraphV>,
    styles: Seq<StyleEntryV>,
    defs: Seq<NumberingV>,
    cs: Seq<NumberingCounter>,
    n: nat,
) -> (Seq<char>, Seq<NumberingCounter>)
    decreases n,
{
    if n == 0 {
        (Seq::empty(), cs)
    } else {
        let prev = spec_cell_text(cell, styles, defs, cs, (n - 1) as nat);
        let pm = spec_paragraph_markdown(cell[n - 1], styles, defs, prev.1);
        (
            prev.0 + pm.0 + (if n < cell.len() {
                "<br/>"@
            } else {
                Seq::empty()
            }),
            pm.1,
        )
    }
}

/// The flattened texts of the first `n` cells of a row, and the counter
/// table after rendering them.
pub open spec fn spec_row_texts(
    cells: Seq<Seq<ParagraphV>>,
    styles: Seq<StyleEntryV>,
    defs: Seq<NumberingV>,
    cs: Seq<NumberingCounter>,
    n: nat,
) -> (Seq<Seq<char>>, Seq<NumberingCounter>)
    decreases n,
{
    if n == 0 {
        (Seq::empty(), cs)
    } else {
        let prev = spec_row_texts(cells, styles, defs, cs, (n - 1) as nat);
        let ct = spec_cell_text(cells[n - 1], styles, defs, prev.1, cells[n - 1].len());
        (prev.0.push(ct.0), ct.1)
    }
}

/// The first `n` rows flattened to header flags and cell texts, and the
/// counter table after rendering them.
pub open spec fn spec_flatten_rows(
    rows: Seq<TableRowV>,
    styles: Seq<StyleEntryV>,
    defs: Seq<NumberingV>,
    cs: Seq<NumberingCounter>,
    n: nat,
) -> (Seq<(bool, Seq<Seq<char>>)>, Seq<NumberingCounter>)
    decreases n,
{
    if n == 0 {
        (Seq::empty(), cs)
    } else {
        let prev = spec_flatten_rows(rows, styles, defs, cs, (n - 1) as nat);
        let rt = spec_row_texts(rows[n - 1].cells, styles, defs, prev.1, rows[n - 1].cells.len());
        (prev.0.push((rows[n - 1].is_header, rt.0)), rt.1)
    }
}

/// The number of columns the first `n` rows span: the largest cell count.
pub open spec fn spec_num_cols(rows: Seq<(bool, Seq<Seq<char>>)>, n: nat) -> nat
    decreases n,
{
    if n == 0 {
        0
    } else {
        let prev = spec_num_cols(rows, (n - 1) as nat);
        if rows[n - 1].1.len() > prev {
            rows[n - 1].1.len()
        } else {
            prev
        }
    }
}

/// The width of column `j` over the first `n` rows: the largest rendered
/// cell length in that column, floored at `m`.
pub open spec fn spec_col_width(
    rows: Seq<(bool, Seq<Seq<char>>)>,
    j: int,
    m: nat,
    n: nat,
) -> nat
    decreases n,
{
    if n == 0 {
        m
    } else {
        let prev = spec_col_width(rows, j, m, (n - 1) as nat);
        let cells = rows[n - 1].1;
        if j < cells.len() && cells[j].len() > prev {
            cells[j].len()
        } else {
            prev
        }
    }
}

/// The column widths of a flattened table: one width for every column index
/// present in any row.
pub open spec fn spec_widths(rows: Seq<(bool, Seq<Seq<char>>)>, m: nat) -> Seq<nat> {
    Seq::new(spec_num_cols(rows, rows.len()), |j: int| spec_col_width(rows, j, m, rows.len()))
}

/// A cell text padded on the right with spaces up to width `w`.
pub open spec fn spec_pad(s: Seq<char>, w: nat) -> Seq<char> {
    if s.len() < w {
        s + spec_repeat_char(' ', (w - s.len()) as nat)
    } else {
        s
    }
}

/// The cell text at column `j` of a row, blank when the row has no cell
/// there.
pub open spec fn spec_cell_at(cs: Seq<Seq<char>>, j: int) -> Seq<char> {
    if 0 <= j < cs.len() {
        cs[j]
    } else {
        Seq::empty()
    }
}

/// The first `n` columns of one rendered row: `| ` before each padded cell
/// and a space after it.
pub open spec fn spec_row_cells(ws: Seq<nat>, cs: Seq<Seq<char>>, n: nat) -> Seq<char>
    decreases n,
{
    if n == 0 {
        Seq::empty()
    } else {
        spec_row_cells(ws, cs, (n - 1) as nat) + "| "@ + spec_pad(spec_cell_at(cs, n - 1), ws[n - 1])
            + " "@
    }
}

/// One rendered table row: its padded cells, a closing pipe, and a newline.
pub open spec fn spec_row_markdown(ws: Seq<nat>, cs: Seq<Seq<char>>) -> Seq<char> {
    spec_row_cells(ws, cs, ws.len()) + "|\n"@
}

/// The divider row's cells: dashes filling each column.
pub open spec fn spec_divider_cells(ws: Seq<nat>) -> Seq<Seq<char>> {
    Seq::new(ws.len(), |j: int| spec_repeat_char('-', ws[j]))
}

/// The blank cells of a synthetic header row.
pub open spec fn spec_blank_cells(ws: Seq<nat>) -> Seq<Seq<char>> {
    Seq::new(ws.len(), |j: int| Seq::empty())
}

/// The rendered rows after the first, in order.
pub open spec fn spec_data_rows(
    ws: Seq<nat>,
    rows: Seq<(bool, Seq<Seq<char>>)>,
    n: nat,
) -> Seq<char>
    decreases n,
{
    if n <= 1 {
        Seq::empty()
    } else {
        spec_data_rows(ws, rows, (n - 1) as nat) + spec_row_markdown(ws, rows[n - 1].1)
    }
}

/// The Markdown text of a flattened table: when the first row is marked as
/// a header it is rendered and followed by the divider; otherwise a blank
/// header row and the divider are synthesized before all the data rows. An
/// empty table renders as nothing.
pub open spec fn spec_table_text(rows: Seq<(bool, Seq<Seq<char>>)>, m: nat) -> Seq<char> {
    if rows.len() == 0 {
        Seq::empty()
    } else {
        let ws = spec_widths(rows, m);
        let divider = spec_row_markdown(ws, spec_divider_cells(ws));
        let head = if rows[0].0 {
            spec_row_markdown(ws, rows[0].1) + divider
        } else {
            spec_row_markdown(ws, spec_blank_cells(ws)) + divider + spec_row_markdown(
                ws,
                rows[0].1,
            )
        };
        head + spec_data_rows(ws, rows, rows.len())
    }
}

/// The Markdown text of a table, and the counter table after rendering it.
pub open spec fn spec_table_markdown(
    rows: Seq<TableRowV>,
    styles: Seq<StyleEntryV>,
    defs: Seq<NumberingV>,
    cs: Seq<NumberingCounter>,
) -> (Seq<char>, Seq<NumberingCounter>) {
    let fl = spec_flatten_rows(rows, styles, defs, cs, rows.len());
    (spec_table_text(fl.0, 3), fl.1)
}

/// Flatten one cell: its paragraphs rendered in order, joined with `<br/>`
/// markers, the last paragraph getting none.
fn cell_to_text(
    cell: &Vec<MarkdownParagraph>,
    styles: &Vec<StyleEntry>,
    numberings: &mut Vec<NumberingCounter>,
    doc: &MarkdownDocument,
) -> (r: String)
    ensures
        ({
            let ct = spec_cell_text(
                crate::document::views_of_cell(cell@),
                crate::style::views_of_styles(styles@),
                crate::numbering::views_of_numberings(doc.numberings@),
                old(numberings)@,
                cell@.len(),
            );
            r@ == ct.0 && final(numberings)@ == ct.1
        }),
{
    let ghost cellv = crate::document::views_of_cell(cell@);
    let ghost stylesv = crate::style::views_of_styles(styles@);
    let ghost defsv = crate::numbering::views_of_numberings(doc.numberings@);
    let mut content = String::new();
    let n = cell.len();
    let mut i: usize = 0;
    while i < n
        invariant
            i <= n,
            n == cell@.len(),
            cellv == crate::document::views_of_cell(cell@),
            stylesv == crate::style::views_of_styles(styles@),
            defsv == crate::numbering::views_of_numberings(doc.numberings@),
            content@ == spec_cell_text(cellv, stylesv, defsv, old(numberings)@, i as nat).0,
            numberings@ == spec_cell_text(cellv, stylesv, defsv, old(numberings)@, i as nat).1,
        decreases n - i,
    {
        let pm = cell[i].to_markdown(styles, numberings, doc);
        content.append(pm.as_str());
        if i + 1 < n {
            content.append("<br/>");
        }
        proof {
            assert(cellv[i as int] == cell@[i as int]@);
            assert(content@ =~= spec_cell_text(
                cellv,
                stylesv,
                defsv,
                old(numberings)@,
                (i + 1) as nat,
            ).0);
        }
        i = i + 1;
    }
    content
}

/// Flatten one row: each cell's text in order.
fn row_to_texts(
    row: &MarkdownTableRow,
    styles: &Vec<StyleEntry>,
    numberings: &mut Vec<NumberingCounter>,
    doc: &MarkdownDocument,
) -> (r: Vec<String>)
    ensures
        ({
            let rt = spec_row_texts(
                row@.cells,
                crate::style::views_of_styles(styles@),
                crate::numbering::views_of_numberings(doc.numberings@),
                old(numberings)@,
                row@.cells.len(),
            );
            views_of_strings(r@) == rt.0 && final(numberings)@ == rt.1
        }),
{
    let ghost cellsv = row@.cells;
    let ghost stylesv = crate::style::views_of_styles(styles@);
    let ghost defsv = crate::numbering::views_of_numberings(doc.numberings@);
    let mut texts: Vec<String> = Vec::new();
    let n = row.cells.len();
    let mut i: usize = 0;
    proof {
        assert(views_of_strings(texts@) =~= Seq::<Seq<char>>::empty());
    }
    while i < n
        invariant
            i <= n,
            n == row.cells@.len(),
            cellsv == row@.cells,
            stylesv == crate::style::views_of_styles(styles@),
            defsv == crate::numbering::views_of_numberings(doc.numberings@),
            views_of_strings(texts@) == spec_row_texts(
                cellsv,
                stylesv,
                defsv,
                old(numberings)@,
                i as nat,
            ).0,
            numberings@ == spec_row_texts(cellsv, stylesv, defsv, old(numberings)@, i as nat).1,
        decreases n - i,
    {
        proof {
            assert(cellsv[i as int] == crate::document::views_of_cell(row.cells@[i as int]@));
        }
        let t = cell_to_text(&row.cells[i], styles, numberings, doc);
        texts.push(t);
        proof {
            assert(views_of_strings(texts@) =~= spec_row_texts(
                cellsv,
                stylesv,
                defsv,
                old(numberings)@,
                (i + 1) as nat,
            ).0);
        }
        i = i + 1;
    }
    texts
}

/// Flatten every row of a table to its header flag and cell texts.
pub fn flatten_table(
    table: &Vec<MarkdownTableRow>,
    styles: &Vec<StyleEntry>,
    numberings: &mut Vec<NumberingCounter>,
    doc: &MarkdownDocument,
) -> (r: Vec<(bool, Vec<String>)>)
    ensures
        ({
            let fl = spec_flatten_rows(
                views_of_rows(table@),
                crate::style::views_of_styles(styles@),
                crate::numbering::views_of_numberings(doc.numberings@),
                old(numberings)@,
                table@.len(),
            );
            views_of_simple_rows(r@) == fl.0 && final(numberings)@ == fl.1
        }),
{
    let ghost rowsv = views_of_rows(table@);
    let ghost stylesv = crate::style::views_of_styles(styles@);
    let ghost defsv = crate::numbering::views_of_numberings(doc.numberings@);
    let mut simple: Vec<(bool, Vec<String>)> = Vec::new();
    let n = table.len();
    let mut i: usize = 0;
    proof {
        assert(views_of_simple_rows(simple@) =~= Seq::<(bool, Seq<Seq<char>>)>::empty());
    }
    while i < n
        invariant
            i <= n,
            n == table@.len(),
            rowsv == views_of_rows(table@),
            stylesv == crate::style::views_of_styles(styles@),
            defsv == crate::numbering::views_of_numberings(doc.numberings@),
            views_of_simple_rows(simple@) == spec_flatten_rows(
                rowsv,
                stylesv,
                defsv,
                old(numberings)@,
                i as nat,
            ).0,
            numberings@ == spec_flatten_rows(rowsv, stylesv, defsv, old(numberings)@, i as nat).1,
        decreases n - i,
    {
        proof {
            assert(rowsv[i as int] == table@[i as int]@);
        }
        let texts = row_to_texts(&table[i], styles, numberings, doc);
        simple.push((table[i].is_header, texts));
        proof {
            assert(views_of_simple_rows(simple@) =~= spec_flatten_rows(
                rowsv,
                stylesv,
                defsv,
                old(numberings)@,
                (i + 1) as nat,
            ).0);
        }
        i = i + 1;
    }
    simple
}

/// Compute every column's width: the largest rendered cell length in the
/// column over all rows, floored at `minimum`.
pub fn max_lengths_per_column(rows: &Vec<(bool, Vec<String>)>, minimum: usize) -> (r: Vec<usize>)
    ensures
        views_of_usizes(r@) == spec_widths(views_of_simple_rows(rows@), minimum as nat),
{
    let ghost rowsv = views_of_simple_rows(rows@);
    let n = rows.len();

    let mut cols: usize = 0;
    let mut i: usize = 0;
    while i < n
        invariant
            i <= n,
            n == rows@.len(),
            rowsv == views_of_simple_rows(rows@),
            cols as nat == spec_num_cols(rowsv, i as nat),
        decreases n - i,
    {
        let len = rows[i].1.len();
        proof {
            assert(rowsv[i as int].1 == views_of_strings(rows@[i as int].1@));
        }
        if len > cols {
            cols = len;
        }
        i = i + 1;
    }

    let mut widths: Vec<usize> = Vec::new();
    let mut j: usize = 0;
    proof {
        assert(views_of_usizes(widths@) =~= Seq::<nat>::empty());
    }
    while j < cols
        invariant
            j <= cols,
            n == rows@.len(),
            rowsv == views_of_simple_rows(rows@),
            cols as nat == spec_num_cols(rowsv, rowsv.len()),
            widths@.len() == j,
            views_of_usizes(widths@) =~= spec_widths(rowsv, minimum as nat).subrange(
                0,
                j as int,
            ),
        decreases cols - j,
    {
        let mut w: usize = minimum;
        let mut k: usize = 0;
        while k < n
            invariant
                k <= n,
                n == rows@.len(),
                rowsv == views_of_simple_rows(rows@),
                j < cols,
                w as nat == spec_col_width(rowsv, j as int, minimum as nat, k as nat),
            decreases n - k,
        {
            proof {
                assert(rowsv[k as int].1 == views_of_strings(rows@[k as int].1@));
            }
            if j < rows[k].1.len() {
                let l = rows[k].1[j].as_str().unicode_len();
                proof {
                    assert(rowsv[k as int].1[j as int] == rows@[k as int].1@[j as int]@);
                }
                if l > w {
                    w = l;
                }
            }
            k = k + 1;
        }
        widths.push(w);
        proof {
            assert(rowsv.len() == rows@.len());
            assert(spec_widths(rowsv, minimum as nat)[j as int] == spec_col_width(
                rowsv,
                j as int,
                minimum as nat,
                rowsv.len(),
            ));
            assert(views_of_usizes(widths@)[j as int] == w as nat);
            assert(views_of_usizes(widths@) =~= spec_widths(rowsv, minimum as nat).subrange(
                0,
                j as int + 1,
            ));
        }
        j = j + 1;
    }
    proof {
        assert(spec_widths(rowsv, minimum as nat).subrange(
            0,
            spec_widths(rowsv, minimum as nat).len() as int,
        ) =~= spec_widths(rowsv, minimum as nat));
    }
    widths
}

/// Pad one cell text with spaces up to the column width.
fn pad_cell(s: &String, w: usize) -> (r: String)
    ensures
        r@ == spec_pad(s@, w as nat),
{
    let mut r = s.clone();
    let len = s.as_str().unicode_len();
    if len < w {
        let sp = repeat_char(' ', w - len);
        r.append(sp.as_str());
    }
    r
}

/// Render one table row: each cell padded to its column's width, pipes
/// between, and a newline at the end.
pub fn table_row_to_markdown(column_lengths: &Vec<usize>, row: &Vec<String>) -> (r: String)
    ensures
        r@ == spec_row_markdown(views_of_usizes(column_lengths@), views_of_strings(row@)),
{
    let ghost ws = views_of_usizes(column_lengths@);
    let ghost cs = views_of_strings(row@);
    let mut r = String::new();
    let n = column_lengths.len();
    let mut j: usize = 0;
    while j < n
        invariant
            j <= n,
            n == column_lengths@.len(),
            ws == views_of_usizes(column_lengths@),
            cs == views_of_strings(row@),
            r@ == spec_row_cells(ws, cs, j as nat),
        decreases n - j,
    {
        r.append("| ");
        proof {
            assert(ws[j as int] == column_lengths@[j as int] as nat);
        }
        let padded = if j < row.len() {
            proof {
                assert(cs[j as int] == row@[j as int]@);
            }
            pad_cell(&row[j], column_lengths[j])
        } else {
            let empty = String::new();
            pad_cell(&empty, column_lengths[j])
        };
        r.append(padded.as_str());
        r.append(" ");
        proof {
            assert(r@ =~= spec_row_cells(ws, cs, (j + 1) as nat));
        }
        j = j + 1;
    }
    r.append("|\n");
    proof {
        assert(r@ =~= spec_row_markdown(ws, cs));
    }
    r
}

/// Render a whole table, advancing the shared numbering counters: flatten
/// the rows, compute the column widths with their floor of three, and emit
/// the header and divider pair before the data rows.
pub fn table_to_markdown(
    table: &Vec<MarkdownTableRow>,
    styles: &Vec<StyleEntry>,
    numberings: &mut Vec<NumberingCounter>,
    doc: &MarkdownDocument,
) -> (r: String)
    ensures
        ({
            let tm = spec_table_markdown(
                views_of_rows(table@),
                crate::style::views_of_styles(styles@),
                crate::numbering::views_of_numberings(doc.numberings@),
                old(numberings)@,
            );
            r@ == tm.0 && final(numberings)@ == tm.1
        }),
{
    let simple = flatten_table(table, styles, numberings, doc);
    let ghost flat = views_of_simple_rows(simple@);
    let column_lengths = max_lengths_per_column(&simple, 3);
    let ghost ws = views_of_usizes(column_lengths@);

    let mut r = String::new();
    let n = simple.len();
    if n == 0 {
        return r;
    }

    let mut divider_cells: Vec<String> = Vec::new();
    let mut j: usize = 0;
    proof {
        assert(views_of_strings(divider_cells@) =~= spec_divider_cells(ws).subrange(0, 0));
    }
    while j < column_lengths.len()
        invariant
            j <= column_lengths@.len(),
            ws == views_of_usizes(column_lengths@),
            divider_cells@.len() == j,
            views_of_strings(divider_cells@) =~= spec_divider_cells(ws).subrange(0, j as int),
        decreases column_lengths@.len() - j,
    {
        divider_cells.push(repeat_char('-', column_lengths[j]));
        proof {
            assert(ws.len() == column_lengths@.len());
            assert(ws[j as int] == column_lengths@[j as int] as nat);
            assert(views_of_strings(divider_cells@)[j as int] == divider_cells@[j as int]@);
            assert(views_of_strings(divider_cells@) =~= spec_divider_cells(ws).subrange(
                0,
                j as int + 1,
            ));
        }
        j = j + 1;
    }
    proof {
        assert(spec_divider_cells(ws).subrange(0, spec_divider_cells(ws).len() as int)
            =~= spec_divider_cells(ws));
    }
    let divider = table_row_to_markdown(&column_lengths, &divider_cells);

    proof {
        assert(flat[0].1 == views_of_strings(simple@[0].1@));
    }
    let first_row_md = table_row_to_markdown(&column_lengths, &simple[0].1);
    if simple[0].0 {
        r.append(first_row_md.as_str());
        r.append(divider.as_str());
    } else {
        let mut blank_cells: Vec<String> = Vec::new();
        let mut b: usize = 0;
        proof {
            assert(views_of_strings(blank_cells@) =~= spec_blank_cells(ws).subrange(0, 0));
        }
        while b < column_lengths.len()
            invariant
                b <= column_lengths@.len(),
                ws == views_of_usizes(column_lengths@),
                blank_cells@.len() == b,
                views_of_strings(blank_cells@) =~= spec_blank_cells(ws).subrange(0, b as int),
            decreases column_lengths@.len() - b,
        {
            blank_cells.push(String::new());
            proof {
                assert(ws.len() == column_lengths@.len());
                assert(views_of_strings(blank_cells@)[b as int] == blank_cells@[b as int]@);
                assert(views_of_strings(blank_cells@) =~= spec_blank_cells(ws).subrange(
                    0,
                    b as int + 1,
                ));
            }
            b = b + 1;
        }
        proof {
            assert(spec_blank_cells(ws).subrange(0, spec_blank_cells(ws).len() as int)
                =~= spec_blank_cells(ws));
        }
        let blank_row = table_row_to_markdown(&column_lengths, &blank_cells);
        r.append(blank_row.as_str());
        r.append(divider.as_str());
        r.append(first_row_md.as_str());
    }

    let mut i: usize = 1;
    proof {
        assert(r@ =~= (if flat[0].0 {
            spec_row_markdown(ws, flat[0].1) + spec_row_markdown(ws, spec_divider_cells(ws))
        } else {
            spec_row_markdown(ws, spec_blank_cells(ws)) + spec_row_markdown(
                ws,
                spec_divider_cells(ws),
            ) + spec_row_markdown(ws, flat[0].1)
        }) + spec_data_rows(ws, flat, 1));
    }
    while i < n
        invariant
            1 <= i <= n,
            n == simple@.len(),
            flat == views_of_simple_rows(simple@),
            ws == views_of_usizes(column_lengths@),
            flat.len() == n,
            r@ == (if flat[0].0 {
                spec_row_markdown(ws, flat[0].1) + spec_row_markdown(ws, spec_divider_cells(ws))
            } else {
                spec_row_markdown(ws, spec_blank_cells(ws)) + spec_row_markdown(
                    ws,
                    spec_divider_cells(ws),
                ) + spec_row_markdown(ws, flat[0].1)
            }) + spec_data_rows(ws, flat, i as nat),
        decreases n - i,
    {
        proof {
            assert(flat[i as int].1 == views_of_strings(simple@[i as int].1@));
        }
        let row_md = table_row_to_markdown(&column_lengths, &simple[i].1);
        r.append(row_md.as_str());
        proof {
            assert(r@ =~= (if flat[0].0 {
                spec_row_markdown(ws, flat[0].1) + spec_row_markdown(ws, spec_divider_cells(ws))
            } else {
                spec_row_markdown(ws, spec_blank_cells(ws)) + spec_row_markdown(
                    ws,
                    spec_divider_cells(ws),
                ) + spec_row_markdown(ws, flat[0].1)
            }) + spec_data_rows(ws, flat, (i + 1) as nat));
        }
        i = i + 1;
    }
    proof {
        assert(ws =~= spec_widths(flat, 3));
        assert(r@ =~= spec_table_text(flat, 3));
    }
    r
}

} // verus!
