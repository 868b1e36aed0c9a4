//! Laws of the rendering engine, stated and proved over the same spec
//! functions that the executable functions' contracts use.

use vstd::prelude::*;
use crate::block::TextBlockV;
use crate::block::TextType;
use crate::document::MarkdownDocument;
use crate::numbering::{
    NumberFormat, NumberingCounter, spec_bump_counter, spec_counter_value, spec_is_blank,
    spec_marker_symbol, spec_sat_inc,
};
use crate::paragraph::{
    ParagraphV, spec_heading_prefix, spec_paragraph_blocks, spec_paragraph_markdown,
    spec_push_text, spec_run_blocks,
};
use crate::raw::{RawParagraph, RawParagraphContent, RawRunContent, RelEntry};
use crate::style::{BlockStyle, NumberingV, StyleEntryV};
use crate::table::{
    spec_blank_cells, spec_col_width, spec_data_rows, spec_divider_cells, spec_row_markdown,
    spec_table_text, spec_widths,
};
use crate::text::spec_repeat_char;

verus! {

proof fn lemma_repeat_char_props(c: char, n: nat)
    ensures
        spec_repeat_char(c, n).len() == n,
        forall|i: int| 0 <= i < n ==> spec_repeat_char(c, n)[i] == c,
    decreases n,
{
    if n > 0 {
        lemma_repeat_char_props(c, (n - 1) as nat);
    }
}

/// A paragraph declaring outline level `l` is prefixed by exactly
/// `min(l, 5) + 1` hash marks and one space: levels zero through four map
/// one-to-one, and every higher level clamps to six marks.
pub proof fn lemma_heading_hash_count(l: int)
    requires
        l >= 0,
    ensures
        ({
            let p = spec_heading_prefix(Option::Some(l));
            let hashes: int = if l < 5 {
                l + 1
            } else {
                6
            };
            &&& p.len() == hashes + 1
            &&& forall|i: int| 0 <= i < hashes ==> p[i] == '#'
            &&& p[hashes] == ' '
        }),
{
    let hashes: nat = if 0 <= l && l <= 4 {
        (l + 1) as nat
    } else {
        6 as nat
    };
    lemma_repeat_char_props('#', hashes);
    assert(spec_heading_prefix(Option::Some(l)) == spec_repeat_char('#', hashes) + seq![' ']);
}

/// Appending two successive text runs of the identical style produces
/// exactly what one run holding their concatenated text produces: the two
/// runs end up in a single merged text block, in order.
pub proof fn lemma_adjacent_same_style_runs_merge(
    blocks: Seq<TextBlockV>,
    style: Option<BlockStyle>,
    t1: Seq<char>,
    t2: Seq<char>,
)
    ensures
        spec_push_text(spec_push_text(blocks, style, t1), style, t2) == spec_push_text(
            blocks,
            style,
            t1 + t2,
        ),
{
    let once = spec_push_text(blocks, style, t1);
    if blocks.len() > 0 && blocks.last().text_type == TextType::Text && blocks.last().style
        == style {
        assert((blocks.last().text + t1) + t2 =~= blocks.last().text + (t1 + t2));
        assert(once.last() == (TextBlockV {
            text_type: TextType::Text,
            style: blocks.last().style,
            text: blocks.last().text + t1,
        }));
        assert(spec_push_text(once, style, t2) =~~= spec_push_text(blocks, style, t1 + t2));
    } else {
        assert(spec_push_text(once, style, t2) =~~= spec_push_text(blocks, style, t1 + t2));
    }
}

/// Whether two adjacent blocks are text blocks of one identical style.
pub open spec fn spec_both_text_same_style(a: TextBlockV, b: TextBlockV) -> bool {
    a.text_type == TextType::Text && b.text_type == TextType::Text && a.style == b.style
}

/// A block sequence is fully coalesced when no two adjacent blocks are text
/// blocks of one identical style.
pub open spec fn spec_coalesced(blocks: Seq<TextBlockV>) -> bool {
    forall|i: int|
        0 < i < blocks.len() ==> !spec_both_text_same_style(blocks[i - 1], #[trigger] blocks[i])
}

proof fn lemma_push_text_coalesced(blocks: Seq<TextBlockV>, style: Option<BlockStyle>, t: Seq<char>)
    requires
        spec_coalesced(blocks),
    ensures
        spec_coalesced(spec_push_text(blocks, style, t)),
{
    let after = spec_push_text(blocks, style, t);
    assert forall|i: int| 0 < i < after.len() implies !spec_both_text_same_style(
        after[i - 1],
        #[trigger] after[i],
    ) by {
        if blocks.len() > 0 && blocks.last().text_type == TextType::Text && blocks.last().style
            == style {
            assert(i < blocks.len());
        }
    }
}

proof fn lemma_push_block_coalesced(blocks: Seq<TextBlockV>, b: TextBlockV)
    requires
        spec_coalesced(blocks),
        b.text_type != TextType::Text,
    ensures
        spec_coalesced(blocks.push(b)),
{
    let after = blocks.push(b);
    assert forall|i: int| 0 < i < after.len() implies !spec_both_text_same_style(
        after[i - 1],
        #[trigger] after[i],
    ) by {
        if i < blocks.len() {
        }
    }
}

proof fn lemma_run_blocks_coalesced(
    blocks: Seq<TextBlockV>,
    style: Option<BlockStyle>,
    content: Seq<RawRunContent>,
    rels: Seq<RelEntry>,
    n: nat,
)
    requires
        spec_coalesced(blocks),
    ensures
        spec_coalesced(spec_run_blocks(blocks, style, content, rels, n)),
    decreases n,
{
    if n > 0 {
        lemma_run_blocks_coalesced(blocks, style, content, rels, (n - 1) as nat);
        let prev = spec_run_blocks(blocks, style, content, rels, (n - 1) as nat);
        match content[n - 1] {
            RawRunContent::Text(t) => {
                lemma_push_text_coalesced(prev, style, t@);
            },
            RawRunContent::Drawing(d) => {
                match d.embed_id {
                    Option::Some(id) => match crate::raw::spec_rel_lookup(rels, id@) {
                        Option::Some(target) => {
                            lemma_push_block_coalesced(
                                prev,
                                TextBlockV {
                                    text_type: TextType::Image,
                                    style: Option::None,
                                    text: crate::paragraph::spec_image_text(
                                        crate::style::view_opt_string(d.description),
                                        target,
                                    ),
                                },
                            );
                        },
                        Option::None => {},
                    },
                    Option::None => {},
                }
            },
            RawRunContent::Other => {},
        }
    }
}

/// The normalizer leaves no fragmentation behind: among the blocks of a
/// normalized paragraph, no two adjacent ones are text blocks of one
/// identical style, so every maximal run of same-style adjacent text went
/// into a single merged block.
pub proof fn lemma_normalized_paragraph_coalesced(p: RawParagraph, rels: Seq<RelEntry>)
    ensures
        spec_coalesced(crate::paragraph::spec_paragraph_from_raw(p, rels).blocks),
{
    lemma_paragraph_blocks_coalesced(p.content@, rels, p.content@.len());
}

proof fn lemma_paragraph_blocks_coalesced(
    content: Seq<RawParagraphContent>,
    rels: Seq<RelEntry>,
    n: nat,
)
    ensures
        spec_coalesced(spec_paragraph_blocks(content, rels, n)),
    decreases n,
{
    if n > 0 {
        lemma_paragraph_blocks_coalesced(content, rels, (n - 1) as nat);
        let prev = spec_paragraph_blocks(content, rels, (n - 1) as nat);
        match content[n - 1] {
            RawParagraphContent::Run(run) => {
                lemma_run_blocks_coalesced(
                    prev,
                    crate::paragraph::spec_run_style(run),
                    run.content@,
                    rels,
                    run.content@.len(),
                );
            },
            RawParagraphContent::Link(l) => {
                let target = crate::paragraph::spec_link_target(
                    crate::style::view_opt_string(l.anchor),
                    crate::style::view_opt_string(l.rel_id),
                    rels,
                );
                match (crate::style::view_opt_string(l.description), target) {
                    (Option::Some(d), Option::Some(t)) => {
                        lemma_push_block_coalesced(
                            prev,
                            TextBlockV {
                                text_type: TextType::Link,
                                style: Option::None,
                                text: crate::paragraph::spec_link_text(d, t),
                            },
                        );
                    },
                    _ => {},
                }
            },
            RawParagraphContent::BookmarkStart(b) => {
                match b.name {
                    Option::Some(name) => {
                        lemma_push_block_coalesced(
                            prev,
                            TextBlockV {
                                text_type: TextType::BookmarkLink,
                                style: Option::None,
                                text: crate::paragraph::spec_bookmark_text(name@),
                            },
                        );
                    },
                    Option::None => {},
                }
            },
            RawParagraphContent::Other => {},
        }
    }
}

/// Rendering one list item advances the list's counter by exactly one, so
/// successive renderings of the same list see strictly increasing counts
/// until the machine bound.
pub proof fn lemma_counter_advances(cs: Seq<NumberingCounter>, id: int)
    requires
        isize::MIN <= id <= isize::MAX,
    ensures
        spec_counter_value(spec_bump_counter(cs, id), id) == spec_sat_inc(
            spec_counter_value(cs, id),
        ),
    decreases cs.len(),
{
    if cs.len() == 0 {
    } else if cs[0].id == id {
        let bumped = spec_bump_counter(cs, id);
        assert(bumped[0].id == id);
    } else {
        lemma_counter_advances(cs.skip(1), id);
        let bumped = spec_bump_counter(cs, id);
        assert(bumped.skip(1) =~= spec_bump_counter(cs.skip(1), id));
    }
}

/// Rendering a paragraph that belongs to list `id` leaves that list's
/// counter advanced by one: two renderings of the same ordered-list
/// paragraph sequence without a reset use strictly increasing counts, while
/// starting again from empty counters reproduces the first output.
pub proof fn lemma_list_counter_advances(
    p: ParagraphV,
    styles: Seq<StyleEntryV>,
    defs: Seq<NumberingV>,
    cs: Seq<NumberingCounter>,
    id: int,
)
    requires
        isize::MIN <= id <= isize::MAX,
        match crate::style::spec_effective_paragraph_style(p.style, styles).numbering {
            Option::Some(nv) => nv.id == Option::Some(id),
            Option::None => false,
        },
    ensures
        spec_counter_value(spec_paragraph_markdown(p, styles, defs, cs).1, id) == spec_sat_inc(
            spec_counter_value(cs, id),
        ),
{
    lemma_counter_advances(cs, id);
}

/// Rendering depends on the document value alone: the per-list counters are
/// scoped to one rendering pass and start from nothing, so two documents
/// with one mathematical value render to the identical text.
pub proof fn lemma_markdown_deterministic(d1: MarkdownDocument, d2: MarkdownDocument)
    requires
        d1@ == d2@,
    ensures
        crate::document::spec_document_markdown(d1@) == crate::document::spec_document_markdown(
            d2@,
        ),
{
}

/// A table column is as wide as its longest rendered cell over all rows,
/// floored at `m`: the width is at least the floor, at least every cell in
/// the column, and equal to the floor or to some cell's length.
pub proof fn lemma_column_width_is_max(
    rows: Seq<(bool, Seq<Seq<char>>)>,
    j: int,
    m: nat,
    n: nat,
)
    requires
        0 <= j,
    ensures
        spec_col_width(rows, j, m, n) >= m,
        forall|k: int|
            0 <= k < n && j < #[trigger] rows[k].1.len() ==> spec_col_width(rows, j, m, n)
                >= rows[k].1[j].len(),
        spec_col_width(rows, j, m, n) == m || exists|k: int|
            0 <= k < n && 0 <= j < #[trigger] rows[k].1.len() && spec_col_width(rows, j, m, n)
                == rows[k].1[j].len(),
    decreases n,
{
    if n > 0 {
        lemma_column_width_is_max(rows, j, m, (n - 1) as nat);
        let prev = spec_col_width(rows, j, m, (n - 1) as nat);
        let cur = spec_col_width(rows, j, m, n);
        let cells = rows[n - 1].1;
        if cur != m {
            if j < cells.len() && cells[j].len() > prev {
                assert(0 <= n - 1 < n && 0 <= j < rows[n - 1].1.len());
                assert(cur == rows[n - 1].1[j].len());
            } else {
                let k = choose|k: int|
                    0 <= k < n - 1 && 0 <= j < #[trigger] rows[k].1.len()
                        && prev == rows[k].1[j].len();
                assert(0 <= k < n && 0 <= j < rows[k].1.len() && cur == rows[k].1[j].len());
            }
        }
    }
}

/// A table whose first row is not marked as a header still renders with a
/// blank header row and the divider before any data row.
pub proof fn lemma_headerless_table_synthesizes_header(rows: Seq<(bool, Seq<Seq<char>>)>, m: nat)
    requires
        rows.len() > 0,
        !rows[0].0,
    ensures
        ({
            let ws = spec_widths(rows, m);
            spec_table_text(rows, m) == spec_row_markdown(ws, spec_blank_cells(ws))
                + spec_row_markdown(ws, spec_divider_cells(ws)) + spec_row_markdown(ws, rows[0].1)
                + spec_data_rows(ws, rows, rows.len())
        }),
{
}

/// A bullet-format list item whose definition has no level text, or a
/// non-blank one, shows a dash for every count.
pub proof fn lemma_bullet_marker_constant(level_text: Option<Seq<char>>, count: nat)
    requires
        match level_text {
            Option::Some(lt) => !spec_is_blank(lt),
            Option::None => true,
        },
    ensures
        spec_marker_symbol(NumberFormat::Bullet, level_text, count) == seq!['-'],
{
}

} // verus!
