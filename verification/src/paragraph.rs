//! Paragraph normalization: one raw paragraph becomes an ordered sequence
//! of typed text blocks, adjacent same-style text runs coalesced, image and
//! link targets resolved through the relationship table.

use vstd::prelude::*;
use vstd::string::*;
use crate::block::{TextBlock, TextBlockV, TextType, spec_block_markdown};
use crate::raw::{
    RawParagraph, RawParagraphContent, RawRun, RawRunContent, RelEntry, spec_rel_lookup,
};
use crate::style::{
    BlockStyle, NumberingV, ParagraphStyle, ParagraphStyleV, StyleEntry, StyleEntryV,
    block_style_eq, spec_block_style_of_run_property, spec_effective_paragraph_style,
    view_opt_paragraph_style, view_opt_string,
};
use crate::numbering::{
    NumberFormat, NumberingCounter, counter_take, marker_symbol, parse_number_format,
    spec_bump_counter, spec_counter_value, spec_def_lookup, spec_marker_symbol,
    spec_parse_number_format,
};
use crate::text::{repeat_char, repeat_str, spec_repeat_char, spec_repeat_seq};

verus! {

/// A normalized paragraph: its resolved local style and its blocks in order.
#[derive(Debug)]
pub struct MarkdownParagraph {
    pub style: Option<ParagraphStyle>,
    pub blocks: Vec<TextBlock>,
}

/// The mathematical value of a `MarkdownParagraph`.
pub struct ParagraphV {
    pub style: Option<ParagraphStyleV>,
    pub blocks: Seq<TextBlockV>,
}

pub open spec fn views_of_blocks(bs: Seq<TextBlock>) -> Seq<TextBlockV> {
    bs.map_values(|b: TextBlock| b@)
}

impl View for MarkdownParagraph {
    type V = ParagraphV;

    open spec fn view(&self) -> ParagraphV {
        ParagraphV {
            style: view_opt_paragraph_style(self.style),
            blocks: views_of_blocks(self.blocks@),
        }
    }
}

/// One text run's text appended to a block sequence: extends the last block
/// when it is a text block of the identical style, and starts a new block
/// otherwise.
pub open spec fn spec_push_text(
    blocks: Seq<TextBlockV>,
    style: Option<BlockStyle>,
    text: Seq<char>,
) -> Seq<TextBlockV> {
    if blocks.len() > 0 && blocks.last().text_type == TextType::Text && blocks.last().style
        == style {
        blocks.update(
            blocks.len() - 1,
            TextBlockV {
                text_type: TextType::Text,
                style: blocks.last().style,
                text: blocks.last().text + text,
            },
        )
    } else {
        blocks.push(TextBlockV { text_type: TextType::Text, style, text })
    }
}

/// The text of an image block: `![description](./target)`.
pub open spec fn spec_image_text(descr: Option<Seq<char>>, target: Seq<char>) -> Seq<char> {
    "!["@ + (match descr {
        Option::Some(d) => d,
        Option::None => Seq::<char>::empty(),
    }) + "](./"@ + target + ")"@
}

/// The text of a link block: `[description](target)`.
pub open spec fn spec_link_text(descr: Seq<char>, target: Seq<char>) -> Seq<char> {
    "["@ + descr + "]("@ + target + ")"@
}

/// The text of a bookmark block: an anchor marker named after the bookmark.
pub open spec fn spec_bookmark_text(name: Seq<char>) -> Seq<char> {
    "<a name=\""@ + name + "\"></a>"@
}

/// The block style a run carries, when it declares one.
pub open spec fn spec_run_style(run: RawRun) -> Option<BlockStyle> {
    match run.property {
        Option::Some(p) => Option::Some(spec_block_style_of_run_property(p)),
        Option::None => Option::None,
    }
}

/// One run content item folded into the block sequence: a text run is
/// coalesced or appended, a drawing whose embed id resolves becomes an image
/// block, and everything else contributes nothing.
pub open spec fn spec_run_content_step(
    blocks: Seq<TextBlockV>,
    style: Option<BlockStyle>,
    item: RawRunContent,
    rels: Seq<RelEntry>,
) -> Seq<TextBlockV> {
    match item {
        RawRunContent::Text(t) => spec_push_text(blocks, style, t@),
        RawRunContent::Drawing(d) => match d.embed_id {
            Option::Some(id) => match spec_rel_lookup(rels, id@) {
                Option::Some(target) => blocks.push(
                    TextBlockV {
                        text_type: TextType::Image,
                        style: Option::None,
                        text: spec_image_text(view_opt_string(d.description), target),
                    },
                ),
                Option::None => blocks,
            },
            Option::None => blocks,
        },
        RawRunContent::Other => blocks,
    }
}

/// The first `n` content items of a run folded into the block sequence.
pub open spec fn spec_run_blocks(
    blocks: Seq<TextBlockV>,
    style: Option<BlockStyle>,
    content: Seq<RawRunContent>,
    rels: Seq<RelEntry>,
    n: nat,
) -> Seq<TextBlockV>
    decreases n,
{
    if n == 0 {
        blocks
    } else {
        spec_run_content_step(
            spec_run_blocks(blocks, style, content, rels, (n - 1) as nat),
            style,
            content[n - 1],
            rels,
        )
    }
}

/// The target a link resolves to: its anchor prefixed with `#`, or the
/// target its relationship id maps to.
pub open spec fn spec_link_target(
    anchor: Option<Seq<char>>,
    rel_id: Option<Seq<char>>,
    rels: Seq<RelEntry>,
) -> Option<Seq<char>> {
    match anchor {
        Option::Some(a) => Option::Some("#"@ + a),
        Option::None => match rel_id {
            Option::Some(id) => spec_rel_lookup(rels, id),
            Option::None => Option::None,
        },
    }
}

/// One paragraph content item folded into the block sequence: a run's
/// contents in order, a link with both a description and a resolved target,
/// a named bookmark, and nothing for every other kind.
pub open spec fn spec_paragraph_content_step(
    blocks: Seq<TextBlockV>,
    item: RawParagraphContent,
    rels: Seq<RelEntry>,
) -> Seq<TextBlockV> {
    match item {
        RawParagraphContent::Run(run) => spec_run_blocks(
            blocks,
            spec_run_style(run),
            run.content@,
            rels,
            run.content@.len(),
        ),
        RawParagraphContent::Link(l) => {
            let target = spec_link_target(
                view_opt_string(l.anchor),
                view_opt_string(l.rel_id),
                rels,
            );
            match (view_opt_string(l.description), target) {
                (Option::Some(d), Option::Some(t)) => blocks.push(
                    TextBlockV {
                        text_type: TextType::Link,
                        style: Option::None,
                        text: spec_link_text(d, t),
                    },
                ),
                _ => blocks,
            }
        },
        RawParagraphContent::BookmarkStart(b) => match b.name {
            Option::Some(name) => blocks.push(
                TextBlockV {
                    text_type: TextType::BookmarkLink,
                    style: Option::None,
                    text: spec_bookmark_text(name@),
                },
            ),
            Option::None => blocks,
        },
        RawParagraphContent::Other => blocks,
    }
}

/// The first `n` content items of a paragraph folded into the block
/// sequence.
pub open spec fn spec_paragraph_blocks(
    content: Seq<RawParagraphContent>,
    rels: Seq<RelEntry>,
    n: nat,
) -> Seq<TextBlockV>
    decreases n,
{
    if n == 0 {
        Seq::empty()
    } else {
        spec_paragraph_content_step(
            spec_paragraph_blocks(content, rels, (n - 1) as nat),
            content[n - 1],
            rels,
        )
    }
}

/// The normalized form of one raw paragraph.
pub open spec fn spec_paragraph_from_raw(p: RawParagraph, rels: Seq<RelEntry>) -> ParagraphV {
    ParagraphV {
        style: match p.property {
            Option::Some(pp) => Option::Some(crate::style::spec_style_from_property(pp)),
            Option::None => Option::None,
        },
        blocks: spec_paragraph_blocks(p.content@, rels, p.content@.len()),
    }
}

/// The heading prefix of a paragraph: outline levels zero through four map
/// to one through five hash marks, and any other declared level maps to six;
/// a space follows the marks.
pub open spec fn spec_heading_prefix(outline: Option<int>) -> Seq<char> {
    match outline {
        Option::Some(l) => spec_repeat_char(
            '#',
            if 0 <= l && l <= 4 {
                (l + 1) as nat
            } else {
                6 as nat
            },
        ) + seq![' '],
        Option::None => Seq::empty(),
    }
}

/// The indentation prefix of a list item: four spaces per indent level when
/// the level is positive.
pub open spec fn spec_indent_prefix(level: Option<int>) -> Seq<char> {
    match level {
        Option::Some(l) => if l > 0 {
            spec_repeat_seq("    "@, l as nat)
        } else {
            Seq::empty()
        },
        Option::None => Seq::empty(),
    }
}

/// The list prefix of a paragraph, and the counter table after rendering
/// it: indentation, then the marker symbol of the pre-increment count under
/// the definition's format (decimal when the list id has no definition),
/// then a space; the counter of the list advances by one. A numbering
/// without a list id contributes its indentation alone.
pub open spec fn spec_numbering_prefix(
    numbering: Option<NumberingV>,
    defs: Seq<NumberingV>,
    cs: Seq<NumberingCounter>,
) -> (Seq<char>, Seq<NumberingCounter>) {
    match numbering {
        Option::None => (Seq::empty(), cs),
        Option::Some(nv) => {
            let indent = spec_indent_prefix(nv.indent_level);
            match nv.id {
                Option::None => (indent, cs),
                Option::Some(id) => {
                    let fl = spec_def_lookup(defs, id);
                    let format = match fl.0 {
                        Option::Some(f) => spec_parse_number_format(f),
                        Option::None => NumberFormat::Decimal,
                    };
                    let symbol = spec_marker_symbol(format, fl.1, spec_counter_value(cs, id));
                    (indent + symbol + seq![' '], spec_bump_counter(cs, id))
                },
            }
        },
    }
}

/// The first `n` blocks rendered under the effective paragraph style, in
/// order.
pub open spec fn spec_blocks_markdown(
    blocks: Seq<TextBlockV>,
    ps: ParagraphStyleV,
    n: nat,
) -> Seq<char>
    decreases n,
{
    if n == 0 {
        Seq::empty()
    } else {
        spec_blocks_markdown(blocks, ps, (n - 1) as nat) + spec_block_markdown(blocks[n - 1], ps)
    }
}

/// The Markdown text of one paragraph, and the counter table after
/// rendering it: the heading prefix, the list prefix, then each block in
/// order, all under the paragraph's effective style.
pub open spec fn spec_paragraph_markdown(
    p: ParagraphV,
    styles: Seq<StyleEntryV>,
    defs: Seq<NumberingV>,
    cs: Seq<NumberingCounter>,
) -> (Seq<char>, Seq<NumberingCounter>) {
    let st = spec_effective_paragraph_style(p.style, styles);
    let np = spec_numbering_prefix(st.numbering, defs, cs);
    (
        spec_heading_prefix(st.outline_lvl) + np.0 + spec_blocks_markdown(
            p.blocks,
            st,
            p.blocks.len(),
        ),
        np.1,
    )
}

/// Equality of two optional block styles, field by field.
pub fn option_block_style_eq(a: &Option<BlockStyle>, b: &Option<BlockStyle>) -> (r: bool)
    ensures
        r == (*a == *b),
{
    match (a, b) {
        (Some(x), Some(y)) => block_style_eq(x, y),
        (None, None) => true,
        _ => false,
    }
}

/// Append one text run to the block list, coalescing it into the preceding
/// block when that block is a text block of the identical style.
fn push_text(blocks: &mut Vec<TextBlock>, style: &Option<BlockStyle>, text: String)
    ensures
        views_of_blocks(final(blocks)@) == spec_push_text(
            views_of_blocks(old(blocks)@),
            *style,
            text@,
        ),
{
    let ghost old_views = views_of_blocks(blocks@);
    let n = blocks.len();
    let mut extend = false;
    if n > 0 {
        let last = &blocks[n - 1];
        if matches!(last.text_type, TextType::Text) && option_block_style_eq(&last.style, style) {
            extend = true;
        }
    }
    proof {
        if n > 0 {
            assert(old_views.last() == blocks@[n - 1]@);
        }
    }
    if extend {
        let mut last = blocks.pop().unwrap();
        last.text.append(text.as_str());
        blocks.push(last);
        proof {
            assert(views_of_blocks(blocks@) =~= spec_push_text(old_views, *style, text@));
        }
    } else {
        blocks.push(TextBlock::new(text, *style, TextType::Text));
        proof {
            assert(views_of_blocks(blocks@) =~= spec_push_text(old_views, *style, text@));
        }
    }
}

/// Render the text of an image block.
fn image_text(descr: &Option<String>, target: &String) -> (r: String)
    ensures
        r@ == spec_image_text(view_opt_string(*descr), target@),
{
    let mut r = String::from_str("![");
    if let Some(d) = descr {
        r.append(d.as_str());
    }
    r.append("](./");
    r.append(target.as_str());
    r.append(")");
    r
}

/// Render the text of a link block.
fn link_text(descr: &String, target: &String) -> (r: String)
    ensures
        r@ == spec_link_text(descr@, target@),
{
    let mut r = String::from_str("[");
    r.append(descr.as_str());
    r.append("](");
    r.append(target.as_str());
    r.append(")");
    r
}

/// Render the text of a bookmark block.
fn bookmark_text(name: &String) -> (r: String)
    ensures
        r@ == spec_bookmark_text(name@),
{
    let mut r = String::from_str("<a name=\"");
    r.append(name.as_str());
    r.append("\"></a>");
    r
}

impl MarkdownParagraph {
    pub fn new() -> (r: Self)
        ensures
            r@.style == Option::<ParagraphStyleV>::None,
            r@.blocks == Seq::<TextBlockV>::empty(),
    {
        let r = MarkdownParagraph { style: None, blocks: vec![] };
        proof {
            assert(r@.blocks =~= Seq::<TextBlockV>::empty());
        }
        r
    }

    /// Normalize one raw paragraph: resolve its local style, walk its
    /// content in order, coalesce adjacent same-style text runs, and resolve
    /// image and link targets through the relationship table.
    pub fn from_paragraph(paragraph: &RawParagraph, relationships: &Vec<RelEntry>) -> (r:
        MarkdownParagraph)
        ensures
            r@ == spec_paragraph_from_raw(*paragraph, relationships@),
    {
        let mut markdown_paragraph = MarkdownParagraph::new();
        if let Some(paragraph_property) = &paragraph.property {
            markdown_paragraph.style = Some(ParagraphStyle::from_property(paragraph_property));
        }
        let n = paragraph.content.len();
        let mut i: usize = 0;
        while i < n
            invariant
                i <= n,
                n == paragraph.content@.len(),
                views_of_blocks(markdown_paragraph.blocks@) == spec_paragraph_blocks(
                    paragraph.content@,
                    relationships@,
                    i as nat,
                ),
                view_opt_paragraph_style(markdown_paragraph.style) == spec_paragraph_from_raw(
                    *paragraph,
                    relationships@,
                ).style,
            decreases n - i,
        {
            match &paragraph.content[i] {
                RawParagraphContent::Run(run) => {
                    let block_style = match &run.property {
                        Some(p) => {
                            let mut bs = BlockStyle::new();
                            crate::style::apply_run_property(&mut bs, p);
                            Some(bs)
                        },
                        None => None,
                    };
                    let m = run.content.len();
                    let mut j: usize = 0;
                    while j < m
                        invariant
                            j <= m,
                            m == run.content@.len(),
                            block_style == spec_run_style(*run),
                            view_opt_paragraph_style(markdown_paragraph.style)
                                == spec_paragraph_from_raw(*paragraph, relationships@).style,
                            views_of_blocks(markdown_paragraph.blocks@) == spec_run_blocks(
                                spec_paragraph_blocks(
                                    paragraph.content@,
                                    relationships@,
                                    i as nat,
                                ),
                                block_style,
                                run.content@,
                                relationships@,
                                j as nat,
                            ),
                        decreases m - j,
                    {
                        match &run.content[j] {
                            RawRunContent::Text(text) => {
                                push_text(
                                    &mut markdown_paragraph.blocks,
                                    &block_style,
                                    text.clone(),
                                );
                            },
                            RawRunContent::Drawing(drawing) => {
                                if let Some(id) = &drawing.embed_id {
                                    if let Some(target) = crate::raw::rel_lookup(
                                        relationships,
                                        id,
                                    ) {
                                        let img_text = image_text(&drawing.description, &target);
                                        let text_block = TextBlock::new(
                                            img_text,
                                            None,
                                            TextType::Image,
                                        );
                                        markdown_paragraph.blocks.push(text_block);
                                        proof {
                                            assert(views_of_blocks(
                                                markdown_paragraph.blocks@,
                                            ) =~= views_of_blocks(
                                                markdown_paragraph.blocks@.drop_last(),
                                            ).push(markdown_paragraph.blocks@.last()@));
                                        }
                                    }
                                }
                            },
                            RawRunContent::Other => {},
                        }
                        j = j + 1;
                    }
                },
                RawParagraphContent::Link(link) => {
                    let target: Option<String> = match &link.anchor {
                        Some(anchor) => {
                            let mut t = String::from_str("#");
                            t.append(anchor.as_str());
                            Some(t)
                        },
                        None => match &link.rel_id {
                            Some(id) => crate::raw::rel_lookup(relationships, id),
                            None => None,
                        },
                    };
                    if let (Some(descr), Some(target)) = (&link.description, target) {
                        let text = link_text(descr, &target);
                        let text_block = TextBlock::new(text, None, TextType::Link);
                        markdown_paragraph.blocks.push(text_block);
                        proof {
                            assert(views_of_blocks(markdown_paragraph.blocks@) =~= views_of_blocks(
                                markdown_paragraph.blocks@.drop_last(),
                            ).push(markdown_paragraph.blocks@.last()@));
                        }
                    }
                },
                RawParagraphContent::BookmarkStart(bookmark_start) => {
                    if let Some(name) = &bookmark_start.name {
                        let text = bookmark_text(name);
                        let text_block = TextBlock::new(text, None, TextType::BookmarkLink);
                        markdown_paragraph.blocks.push(text_block);
                        proof {
                            assert(views_of_blocks(markdown_paragraph.blocks@) =~= views_of_blocks(
                                markdown_paragraph.blocks@.drop_last(),
                            ).push(markdown_paragraph.blocks@.last()@));
                        }
                    }
                },
                RawParagraphContent::Other => {},
            }
            i = i + 1;
        }
        markdown_paragraph
    }
}

impl MarkdownParagraph {
    /// Render one paragraph to Markdown under the document's named styles
    /// and numbering definitions, advancing the shared per-list counters.
    pub fn to_markdown(
        &self,
        styles: &Vec<StyleEntry>,
        numberings: &mut Vec<NumberingCounter>,
        doc: &crate::document::MarkdownDocument,
    ) -> (r: String)
        ensures
            r@ == spec_paragraph_markdown(
                self@,
                crate::style::views_of_styles(styles@),
                crate::numbering::views_of_numberings(doc.numberings@),
                old(numberings)@,
            ).0,
            final(numberings)@ == spec_paragraph_markdown(
                self@,
                crate::style::views_of_styles(styles@),
                crate::numbering::views_of_numberings(doc.numberings@),
                old(numberings)@,
            ).1,
    {
        let ghost stv = spec_effective_paragraph_style(
            self@.style,
            crate::style::views_of_styles(styles@),
        );
        let ghost defsv = crate::numbering::views_of_numberings(doc.numberings@);
        let ghost np = spec_numbering_prefix(stv.numbering, defsv, old(numberings)@);

        let mut markdown = String::new();
        let style = crate::style::effective_paragraph_style(&self.style, styles);
        proof {
            assert(style@ == stv);
        }

        if let Some(outline_lvl) = style.outline_lvl {
            let hashes: usize = if 0 <= outline_lvl && outline_lvl <= 4 {
                (outline_lvl + 1) as usize
            } else {
                6
            };
            let h = repeat_char('#', hashes);
            markdown.append(h.as_str());
            markdown.push(' ');
        }
        proof {
            assert(markdown@ =~= spec_heading_prefix(stv.outline_lvl));
        }

        if let Some(numbering) = &style.numbering {
            if let Some(level) = numbering.indent_level {
                if level > 0 {
                    let ind = repeat_str("    ", level as usize);
                    markdown.append(ind.as_str());
                }
            }
            proof {
                assert(markdown@ =~= spec_heading_prefix(stv.outline_lvl) + spec_indent_prefix(
                    numbering@.indent_level,
                ));
            }
            if let Some(id) = numbering.id {
                let fl = crate::numbering::def_lookup(&doc.numberings, id);
                let format = match &fl.0 {
                    Some(f) => parse_number_format(f),
                    None => NumberFormat::Decimal,
                };
                let count = counter_take(numberings, id);
                let symbol = marker_symbol(format, &fl.1, count);
                markdown.append(symbol.as_str());
                markdown.push(' ');
            }
        }
        proof {
            assert(markdown@ =~= spec_heading_prefix(stv.outline_lvl) + np.0);
            assert(numberings@ == np.1);
        }

        let ghost prefix = markdown@;
        let n = self.blocks.len();
        let mut i: usize = 0;
        proof {
            assert(prefix + spec_blocks_markdown(self@.blocks, stv, 0) =~= prefix);
        }
        while i < n
            invariant
                i <= n,
                n == self.blocks@.len(),
                style@ == stv,
                markdown@ == prefix + spec_blocks_markdown(self@.blocks, stv, i as nat),
                numberings@ == np.1,
            decreases n - i,
        {
            let b = self.blocks[i].to_markdown(&style);
            markdown.append(b.as_str());
            proof {
                assert(self@.blocks[i as int] == self.blocks@[i as int]@);
                assert(markdown@ =~= prefix + spec_blocks_markdown(
                    self@.blocks,
                    stv,
                    (i + 1) as nat,
                ));
            }
            i = i + 1;
        }
        proof {
            assert(self@.blocks.len() == n);
            assert(markdown@ =~= spec_paragraph_markdown(
                self@,
                crate::style::views_of_styles(styles@),
                defsv,
                old(numberings)@,
            ).0);
        }
        markdown
    }
}

} // verus!
