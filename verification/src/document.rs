//! The normalized document: its content in order, its named-style and
//! numbering tables, and its images.

use vstd::prelude::*;
use vstd::string::*;
use crate::paragraph::{MarkdownParagraph, ParagraphV};
use crate::raw::{
    RawBodyContent, RawDocument, RawMedia, RawNumberingDef, RawStyleDef, RawTable, RawTableCell,
    RawTableRow, RelEntry,
};
use crate::style::{MarkdownNumbering, NumberingV, StyleEntry, StyleEntryV};

verus! {

/// One entry of the document's image table, keyed by relationship id.
#[derive(Debug)]
pub struct ImageEntry {
    pub id: String,
    pub data: Vec<u8>,
}

/// The mathematical value of an `ImageEntry`.
pub struct ImageEntryV {
    pub id: Seq<char>,
    pub data: Seq<u8>,
}

impl View for ImageEntry {
    type V = ImageEntryV;

    open spec fn view(&self) -> ImageEntryV {
        ImageEntryV { id: self.id@, data: self.data@ }
    }
}

/// One cell of a table: its paragraphs in order.
pub type MarkdownTableCell = Vec<MarkdownParagraph>;

/// One row of a table: its header flag and its cells in order.
#[derive(Debug)]
pub struct MarkdownTableRow {
    pub is_header: bool,
    pub cells: Vec<MarkdownTableCell>,
}

/// A table: its rows in order.
pub type MarkdownTable = Vec<MarkdownTableRow>;

/// The mathematical value of a `MarkdownTableRow`.
pub struct TableRowV {
    pub is_header: bool,
    pub cells: Seq<Seq<ParagraphV>>,
}

pub open spec fn views_of_cell(cell: Seq<MarkdownParagraph>) -> Seq<ParagraphV> {
    cell.map_values(|p: MarkdownParagraph| p@)
}

impl View for MarkdownTableRow {
    type V = TableRowV;

    open spec fn view(&self) -> TableRowV {
        TableRowV {
            is_header: self.is_header,
            cells: self.cells@.map_values(|c: MarkdownTableCell| views_of_cell(c@)),
        }
    }
}

pub open spec fn views_of_rows(rows: Seq<MarkdownTableRow>) -> Seq<TableRowV> {
    rows.map_values(|r: MarkdownTableRow| r@)
}

/// One item of the document's content: a paragraph or a table.
#[derive(Debug)]
pub enum MarkdownContent {
    Paragraph(MarkdownParagraph),
    Table(MarkdownTable),
}

/// The mathematical value of a `MarkdownContent`.
pub enum ContentV {
    Paragraph(ParagraphV),
    Table(Seq<TableRowV>),
}

impl View for MarkdownContent {
    type V = ContentV;

    open spec fn view(&self) -> ContentV {
        match self {
            MarkdownContent::Paragraph(p) => ContentV::Paragraph(p@),
            MarkdownContent::Table(t) => ContentV::Table(views_of_rows(t@)),
        }
    }
}

pub open spec fn views_of_content(content: Seq<MarkdownContent>) -> Seq<ContentV> {
    content.map_values(|c: MarkdownContent| c@)
}

/// The normalized document.
#[derive(Debug)]
pub struct MarkdownDocument {
    pub title: Option<String>,
    pub content: Vec<MarkdownContent>,
    pub styles: Vec<StyleEntry>,
    pub numberings: Vec<MarkdownNumbering>,
    pub images: Vec<ImageEntry>,
}

/// The mathematical value of a `MarkdownDocument`.
pub struct DocumentV {
    pub title: Option<Seq<char>>,
    pub content: Seq<ContentV>,
    pub styles: Seq<StyleEntryV>,
    pub numberings: Seq<NumberingV>,
    pub images: Seq<ImageEntryV>,
}

impl View for MarkdownDocument {
    type V = DocumentV;

    open spec fn view(&self) -> DocumentV {
        DocumentV {
            title: crate::style::view_opt_string(self.title),
            content: views_of_content(self.content@),
            styles: crate::style::views_of_styles(self.styles@),
            numberings: crate::numbering::views_of_numberings(self.numberings@),
            images: self.images@.map_values(|e: ImageEntry| e@),
        }
    }
}

/// The document with nothing in it.
pub open spec fn spec_empty_document() -> DocumentV {
    DocumentV {
        title: Option::None,
        content: Seq::empty(),
        styles: Seq::empty(),
        numberings: Seq::empty(),
        images: Seq::empty(),
    }
}

impl MarkdownDocument {
    pub fn new() -> (r: Self)
        ensures
            r@ == spec_empty_document(),
    {
        let r = MarkdownDocument {
            title: None,
            content: vec![],
            styles: vec![],
            numberings: vec![],
            images: vec![],
        };
        proof {
            assert(r@.content =~= Seq::<ContentV>::empty());
            assert(r@.styles =~= Seq::<StyleEntryV>::empty());
            assert(r@.numberings =~= Seq::<NumberingV>::empty());
            assert(r@.images =~= Seq::<ImageEntryV>::empty());
        }
        r
    }
}

/// A numbering-definition table with `d` recorded: the first entry carrying
/// the same list id is replaced, or a fresh entry is appended.
pub open spec fn spec_upsert_numbering(defs: Seq<NumberingV>, d: NumberingV) -> Seq<NumberingV>
    decreases defs.len(),
{
    if defs.len() == 0 {
        seq![d]
    } else if defs[0].id == d.id {
        seq![d] + defs.skip(1)
    } else {
        seq![defs[0]] + spec_upsert_numbering(defs.skip(1), d)
    }
}

/// A named-style table with `e` recorded, the first entry under the same id
/// replaced or a fresh entry appended.
pub open spec fn spec_upsert_style(styles: Seq<StyleEntryV>, e: StyleEntryV) -> Seq<StyleEntryV>
    decreases styles.len(),
{
    if styles.len() == 0 {
        seq![e]
    } else if styles[0].id == e.id {
        seq![e] + styles.skip(1)
    } else {
        seq![styles[0]] + spec_upsert_style(styles.skip(1), e)
    }
}

/// An image table with `e` recorded, the first entry under the same id
/// replaced or a fresh entry appended.
pub open spec fn spec_upsert_image(images: Seq<ImageEntryV>, e: ImageEntryV) -> Seq<ImageEntryV>
    decreases images.len(),
{
    if images.len() == 0 {
        seq![e]
    } else if images[0].id == e.id {
        seq![e] + images.skip(1)
    } else {
        seq![images[0]] + spec_upsert_image(images.skip(1), e)
    }
}

proof fn lemma_upsert_numbering_found(defs: Seq<NumberingV>, d: NumberingV, j: int)
    requires
        0 <= j < defs.len(),
        defs[j].id == d.id,
        forall|k: int| 0 <= k < j ==> defs[k].id != d.id,
    ensures
        spec_upsert_numbering(defs, d) =~= defs.update(j, d),
    decreases j,
{
    if j == 0 {
        assert(spec_upsert_numbering(defs, d) =~= defs.update(0, d));
    } else {
        lemma_upsert_numbering_found(defs.skip(1), d, j - 1);
        assert(defs.skip(1)[j - 1] == defs[j]);
        assert(spec_upsert_numbering(defs, d) =~= defs.update(j, d));
    }
}

proof fn lemma_upsert_numbering_absent(defs: Seq<NumberingV>, d: NumberingV)
    requires
        forall|k: int| 0 <= k < defs.len() ==> defs[k].id != d.id,
    ensures
        spec_upsert_numbering(defs, d) =~= defs.push(d),
    decreases defs.len(),
{
    if defs.len() > 0 {
        lemma_upsert_numbering_absent(defs.skip(1), d);
        assert(spec_upsert_numbering(defs, d) =~= defs.push(d));
    }
}

proof fn lemma_upsert_style_found(styles: Seq<StyleEntryV>, e: StyleEntryV, j: int)
    requires
        0 <= j < styles.len(),
        styles[j].id == e.id,
        forall|k: int| 0 <= k < j ==> styles[k].id != e.id,
    ensures
        spec_upsert_style(styles, e) =~= styles.update(j, e),
    decreases j,
{
    if j == 0 {
        assert(spec_upsert_style(styles, e) =~= styles.update(0, e));
    } else {
        lemma_upsert_style_found(styles.skip(1), e, j - 1);
        assert(styles.skip(1)[j - 1] == styles[j]);
        assert(spec_upsert_style(styles, e) =~= styles.update(j, e));
    }
}

proof fn lemma_upsert_style_absent(styles: Seq<StyleEntryV>, e: StyleEntryV)
    requires
        forall|k: int| 0 <= k < styles.len() ==> styles[k].id != e.id,
    ensures
        spec_upsert_style(styles, e) =~= styles.push(e),
    decreases styles.len(),
{
    if styles.len() > 0 {
        lemma_upsert_style_absent(styles.skip(1), e);
        assert(spec_upsert_style(styles, e) =~= styles.push(e));
    }
}

proof fn lemma_upsert_image_found(images: Seq<ImageEntryV>, e: ImageEntryV, j: int)
    requires
        0 <= j < images.len(),
        images[j].id == e.id,
        forall|k: int| 0 <= k < j ==> images[k].id != e.id,
    ensures
        spec_upsert_image(images, e) =~= images.update(j, e),
    decreases j,
{
    if j == 0 {
        assert(spec_upsert_image(images, e) =~= images.update(0, e));
    } else {
        lemma_upsert_image_found(images.skip(1), e, j - 1);
        assert(images.skip(1)[j - 1] == images[j]);
        assert(spec_upsert_image(images, e) =~= images.update(j, e));
    }
}

proof fn lemma_upsert_image_absent(images: Seq<ImageEntryV>, e: ImageEntryV)
    requires
        forall|k: int| 0 <= k < images.len() ==> images[k].id != e.id,
    ensures
        spec_upsert_image(images, e) =~= images.push(e),
    decreases images.len(),
{
    if images.len() > 0 {
        lemma_upsert_image_absent(images.skip(1), e);
        assert(spec_upsert_image(images, e) =~= images.push(e));
    }
}

/// Record one numbering definition, replacing an entry under the same id.
fn upsert_numbering(defs: &mut Vec<MarkdownNumbering>, d: MarkdownNumbering)
    ensures
        crate::numbering::views_of_numberings(final(defs)@) == spec_upsert_numbering(
            crate::numbering::views_of_numberings(old(defs)@),
            d@,
        ),
{
    let ghost vs = crate::numbering::views_of_numberings(defs@);
    let n = defs.len();
    let mut i: usize = 0;
    while i < n
        invariant
            i <= n,
            n == defs@.len(),
            defs@ == old(defs)@,
            vs == crate::numbering::views_of_numberings(defs@),
            forall|k: int| 0 <= k < i ==> vs[k].id != d@.id,
        decreases n - i,
    {
        proof {
            assert(vs[i as int] == defs@[i as int]@);
        }
        let same = match (defs[i].id, d.id) {
            (Some(a), Some(b)) => a == b,
            (None, None) => true,
            _ => false,
        };
        if same {
            defs.set(i, d);
            proof {
                lemma_upsert_numbering_found(vs, d@, i as int);
                assert(crate::numbering::views_of_numberings(defs@) =~= vs.update(i as int, d@));
            }
            return ;
        }
        i = i + 1;
    }
    defs.push(d);
    proof {
        lemma_upsert_numbering_absent(vs, d@);
        assert(crate::numbering::views_of_numberings(defs@) =~= vs.push(d@));
    }
}

/// Record one named style, replacing an entry under the same id.
fn upsert_style(styles: &mut Vec<StyleEntry>, e: StyleEntry)
    ensures
        crate::style::views_of_styles(final(styles)@) == spec_upsert_style(
            crate::style::views_of_styles(old(styles)@),
            e@,
        ),
{
    let ghost vs = crate::style::views_of_styles(styles@);
    let n = styles.len();
    let mut i: usize = 0;
    while i < n
        invariant
            i <= n,
            n == styles@.len(),
            styles@ == old(styles)@,
            vs == crate::style::views_of_styles(styles@),
            forall|k: int| 0 <= k < i ==> vs[k].id != e@.id,
        decreases n - i,
    {
        proof {
            assert(vs[i as int] == styles@[i as int]@);
        }
        if styles[i].id.eq(&e.id) {
            styles.set(i, e);
            proof {
                lemma_upsert_style_found(vs, e@, i as int);
                assert(crate::style::views_of_styles(styles@) =~= vs.update(i as int, e@));
            }
            return ;
        }
        i = i + 1;
    }
    styles.push(e);
    proof {
        lemma_upsert_style_absent(vs, e@);
        assert(crate::style::views_of_styles(styles@) =~= vs.push(e@));
    }
}

/// Record one image, replacing an entry under the same id.
fn upsert_image(images: &mut Vec<ImageEntry>, e: ImageEntry)
    ensures
        final(images)@.map_values(|x: ImageEntry| x@) == spec_upsert_image(
            old(images)@.map_values(|x: ImageEntry| x@),
            e@,
        ),
{
    let ghost vs = images@.map_values(|x: ImageEntry| x@);
    let n = images.len();
    let mut i: usize = 0;
    while i < n
        invariant
            i <= n,
            n == images@.len(),
            images@ == old(images)@,
            vs == images@.map_values(|x: ImageEntry| x@),
            forall|k: int| 0 <= k < i ==> vs[k].id != e@.id,
        decreases n - i,
    {
        proof {
            assert(vs[i as int] == images@[i as int]@);
        }
        if images[i].id.eq(&e.id) {
            images.set(i, e);
            proof {
                lemma_upsert_image_found(vs, e@, i as int);
                assert(images@.map_values(|x: ImageEntry| x@) =~= vs.update(i as int, e@));
            }
            return ;
        }
        i = i + 1;
    }
    images.push(e);
    proof {
        lemma_upsert_image_absent(vs, e@);
        assert(images@.map_values(|x: ImageEntry| x@) =~= vs.push(e@));
    }
}

/// The title heading: a level-one heading and a blank line, when a title is
/// present.
pub open spec fn spec_title_prefix(title: Option<Seq<char>>) -> Seq<char> {
    match title {
        Option::Some(t) => "# "@ + t + "\n\n"@,
        Option::None => Seq::empty(),
    }
}

/// One content item's Markdown text, and the counter table after rendering
/// it: a paragraph followed by a newline, or a table.
pub open spec fn spec_content_item_markdown(
    c: ContentV,
    styles: Seq<StyleEntryV>,
    defs: Seq<NumberingV>,
    cs: Seq<crate::numbering::NumberingCounter>,
) -> (Seq<char>, Seq<crate::numbering::NumberingCounter>) {
    match c {
        ContentV::Paragraph(p) => {
            let pm = crate::paragraph::spec_paragraph_markdown(p, styles, defs, cs);
            (pm.0 + "\n"@, pm.1)
        },
        ContentV::Table(rows) => crate::table::spec_table_markdown(rows, styles, defs, cs),
    }
}

/// The first `n` content items rendered in order, one blank line between
/// adjacent items and none after the last.
pub open spec fn spec_content_markdown(
    content: Seq<ContentV>,
    styles: Seq<StyleEntryV>,
    defs: Seq<NumberingV>,
    cs: Seq<crate::numbering::NumberingCounter>,
    n: nat,
) -> (Seq<char>, Seq<crate::numbering::NumberingCounter>)
    decreases n,
{
    if n == 0 {
        (Seq::empty(), cs)
    } else {
        let prev = spec_content_markdown(content, styles, defs, cs, (n - 1) as nat);
        let im = spec_content_item_markdown(content[n - 1], styles, defs, prev.1);
        (
            prev.0 + im.0 + (if n < content.len() {
                "\n"@
            } else {
                Seq::empty()
            }),
            im.1,
        )
    }
}

/// The full Markdown text of a document: the title heading, then every
/// content item, rendered with the per-list counters starting from nothing.
pub open spec fn spec_document_markdown(d: DocumentV) -> Seq<char> {
    spec_title_prefix(d.title) + spec_content_markdown(
        d.content,
        d.styles,
        d.numberings,
        Seq::empty(),
        d.content.len(),
    ).0
}

impl MarkdownDocument {
    /// Render the whole document to Markdown. The numbering counters are
    /// local to this call: they start from nothing, persist across the
    /// entire walk, and are discarded at the end, so a second call renders
    /// the identical text.
    pub fn to_markdown(&self) -> (r: String)
        ensures
            r@ == spec_document_markdown(self@),
    {
        let mut markdown = String::new();
        if let Some(title) = &self.title {
            markdown.append("# ");
            markdown.append(title.as_str());
            markdown.append("\n\n");
        }
        proof {
            assert(markdown@ =~= spec_title_prefix(self@.title));
        }
        let ghost tp = markdown@;

        let mut numberings: Vec<crate::numbering::NumberingCounter> = Vec::new();
        proof {
            assert(numberings@ =~= Seq::<crate::numbering::NumberingCounter>::empty());
        }
        let n = self.content.len();
        let mut i: usize = 0;
        while i < n
            invariant
                i <= n,
                n == self.content@.len(),
                tp == spec_title_prefix(self@.title),
                markdown@ == tp + spec_content_markdown(
                    self@.content,
                    self@.styles,
                    self@.numberings,
                    Seq::empty(),
                    i as nat,
                ).0,
                numberings@ == spec_content_markdown(
                    self@.content,
                    self@.styles,
                    self@.numberings,
                    Seq::empty(),
                    i as nat,
                ).1,
            decreases n - i,
        {
            proof {
                assert(self@.content[i as int] == self.content@[i as int]@);
            }
            match &self.content[i] {
                MarkdownContent::Paragraph(paragraph) => {
                    let t = paragraph.to_markdown(&self.styles, &mut numberings, self);
                    markdown.append(t.as_str());
                    markdown.append("\n");
                },
                MarkdownContent::Table(table) => {
                    let t = crate::table::table_to_markdown(
                        table,
                        &self.styles,
                        &mut numberings,
                        self,
                    );
                    markdown.append(t.as_str());
                },
            }
            if i != n - 1 {
                markdown.append("\n");
            }
            proof {
                assert(markdown@ =~= tp + spec_content_markdown(
                    self@.content,
                    self@.styles,
                    self@.numberings,
                    Seq::empty(),
                    (i + 1) as nat,
                ).0);
            }
            i = i + 1;
        }
        markdown
    }
}

/// The document title: kept only when present and non-empty.
pub open spec fn spec_title_from_raw(title: Option<String>) -> Option<Seq<char>> {
    match title {
        Option::Some(t) => if t@.len() > 0 {
            Option::Some(t@)
        } else {
            Option::None
        },
        Option::None => Option::None,
    }
}

/// The numbering table built from the first `n` raw definitions, later
/// entries under one id replacing earlier ones.
pub open spec fn spec_numberings_from_raw(defs: Seq<RawNumberingDef>, n: nat) -> Seq<NumberingV>
    decreases n,
{
    if n == 0 {
        Seq::empty()
    } else {
        spec_upsert_numbering(
            spec_numberings_from_raw(defs, (n - 1) as nat),
            NumberingV {
                id: Option::Some(defs[n - 1].id as int),
                indent_level: Option::None,
                format: crate::style::view_opt_string(defs[n - 1].format),
                level_text: crate::style::view_opt_string(defs[n - 1].level_text),
            },
        )
    }
}

/// The named-style table built from the first `n` raw definitions: only
/// paragraph-type styles carrying a property record enter it.
pub open spec fn spec_styles_from_raw(styles: Seq<RawStyleDef>, n: nat) -> Seq<StyleEntryV>
    decreases n,
{
    if n == 0 {
        Seq::empty()
    } else {
        let prev = spec_styles_from_raw(styles, (n - 1) as nat);
        let s = styles[n - 1];
        if s.is_paragraph {
            match s.property {
                Option::Some(p) => spec_upsert_style(
                    prev,
                    StyleEntryV {
                        id: s.style_id@,
                        style: crate::style::spec_style_from_property(p),
                    },
                ),
                Option::None => prev,
            }
        } else {
            prev
        }
    }
}

/// The image table built from the first `n` media entries: image media
/// only, keyed by relationship id.
pub open spec fn spec_images_from_raw(media: Seq<RawMedia>, n: nat) -> Seq<ImageEntryV>
    decreases n,
{
    if n == 0 {
        Seq::empty()
    } else {
        let prev = spec_images_from_raw(media, (n - 1) as nat);
        let m = media[n - 1];
        if m.is_image {
            spec_upsert_image(prev, ImageEntryV { id: m.id@, data: m.data@ })
        } else {
            prev
        }
    }
}

/// The first `n` paragraphs of one raw cell, each normalized.
pub open spec fn spec_cell_from_raw(c: RawTableCell, rels: Seq<RelEntry>, n: nat) -> Seq<
    ParagraphV,
>
    decreases n,
{
    if n == 0 {
        Seq::empty()
    } else {
        spec_cell_from_raw(c, rels, (n - 1) as nat).push(
            crate::paragraph::spec_paragraph_from_raw(c.paragraphs[n - 1], rels),
        )
    }
}

/// The cells of one raw row from its first `n`: a cell without paragraphs
/// is dropped from the row.
pub open spec fn spec_row_cells_from_raw(r: RawTableRow, rels: Seq<RelEntry>, n: nat) -> Seq<
    Seq<ParagraphV>,
>
    decreases n,
{
    if n == 0 {
        Seq::empty()
    } else {
        let prev = spec_row_cells_from_raw(r, rels, (n - 1) as nat);
        let c = r.cells[n - 1];
        if c.paragraphs@.len() > 0 {
            prev.push(spec_cell_from_raw(c, rels, c.paragraphs@.len()))
        } else {
            prev
        }
    }
}

/// The first `n` rows of one raw table.
pub open spec fn spec_table_from_raw(t: RawTable, rels: Seq<RelEntry>, n: nat) -> Seq<TableRowV>
    decreases n,
{
    if n == 0 {
        Seq::empty()
    } else {
        spec_table_from_raw(t, rels, (n - 1) as nat).push(
            TableRowV {
                is_header: t.rows[n - 1].is_header,
                cells: spec_row_cells_from_raw(t.rows[n - 1], rels, t.rows[n - 1].cells@.len()),
            },
        )
    }
}

/// The content built from the first `n` raw body items: paragraphs that
/// normalize to no blocks are dropped, tables are kept whole, and every
/// other body item contributes nothing.
pub open spec fn spec_body_from_raw(
    body: Seq<RawBodyContent>,
    rels: Seq<RelEntry>,
    n: nat,
) -> Seq<ContentV>
    decreases n,
{
    if n == 0 {
        Seq::empty()
    } else {
        let prev = spec_body_from_raw(body, rels, (n - 1) as nat);
        match body[n - 1] {
            RawBodyContent::Paragraph(p) => {
                let mp = crate::paragraph::spec_paragraph_from_raw(p, rels);
                if mp.blocks.len() > 0 {
                    prev.push(ContentV::Paragraph(mp))
                } else {
                    prev
                }
            },
            RawBodyContent::Table(t) => prev.push(
                ContentV::Table(spec_table_from_raw(t, rels, t.rows@.len())),
            ),
            RawBodyContent::Other => prev,
        }
    }
}

/// The normalized document a raw document describes.
pub open spec fn spec_document_from_raw(raw: RawDocument) -> DocumentV {
    DocumentV {
        title: spec_title_from_raw(raw.title),
        content: spec_body_from_raw(raw.body@, raw.relationships@, raw.body@.len()),
        styles: spec_styles_from_raw(raw.styles@, raw.styles@.len()),
        numberings: spec_numberings_from_raw(raw.numberings@, raw.numberings@.len()),
        images: spec_images_from_raw(raw.media@, raw.media@.len()),
    }
}

impl MarkdownDocument {
    /// Build the normalized document from a raw parsed one in a single
    /// walk: keep a non-empty title, collect the numbering, style and image
    /// tables, and normalize the body content in order.
    pub fn from_raw(raw: &RawDocument) -> (r: MarkdownDocument)
        ensures
            r@ == spec_document_from_raw(*raw),
    {
        let mut doc = MarkdownDocument::new();
        proof {
            assert(doc.images@.len() == doc@.images.len());
            assert(doc.styles@.len() == doc@.styles.len());
            assert(doc.content@.len() == doc@.content.len());
            assert(doc.numberings@.len() == doc@.numberings.len());
            assert(crate::numbering::views_of_numberings(doc.numberings@) =~= Seq::<
                NumberingV,
            >::empty());
        }

        if let Some(title) = &raw.title {
            if !title.as_str().is_empty() {
                doc.title = Some(title.clone());
            }
        }
        proof {
            assert(crate::style::view_opt_string(doc.title) == spec_title_from_raw(raw.title));
        }

        let n_defs = raw.numberings.len();
        let mut i: usize = 0;
        while i < n_defs
            invariant
                i <= n_defs,
                n_defs == raw.numberings@.len(),
                crate::style::view_opt_string(doc.title) == spec_title_from_raw(raw.title),
                crate::numbering::views_of_numberings(doc.numberings@) == spec_numberings_from_raw(
                    raw.numberings@,
                    i as nat,
                ),
                doc.images@.len() == 0,
                doc.styles@.len() == 0,
                doc.content@.len() == 0,
            decreases n_defs - i,
        {
            let d = &raw.numberings[i];
            upsert_numbering(
                &mut doc.numberings,
                MarkdownNumbering {
                    id: Some(d.id),
                    indent_level: None,
                    format: crate::style::clone_opt_string(&d.format),
                    level_text: crate::style::clone_opt_string(&d.level_text),
                },
            );
            i = i + 1;
        }

        let n_media = raw.media.len();
        let mut i: usize = 0;
        proof {
            assert(doc.images@ =~= Seq::<ImageEntry>::empty());
            assert(doc.images@.map_values(|x: ImageEntry| x@) =~= Seq::<ImageEntryV>::empty());
        }
        while i < n_media
            invariant
                i <= n_media,
                n_media == raw.media@.len(),
                crate::style::view_opt_string(doc.title) == spec_title_from_raw(raw.title),
                crate::numbering::views_of_numberings(doc.numberings@) == spec_numberings_from_raw(
                    raw.numberings@,
                    raw.numberings@.len(),
                ),
                doc.images@.map_values(|x: ImageEntry| x@) == spec_images_from_raw(
                    raw.media@,
                    i as nat,
                ),
                doc.styles@.len() == 0,
                doc.content@.len() == 0,
            decreases n_media - i,
        {
            let m = &raw.media[i];
            if m.is_image {
                upsert_image(&mut doc.images, ImageEntry { id: m.id.clone(), data: m.data.clone() });
            }
            i = i + 1;
        }

        let n_styles = raw.styles.len();
        let mut i: usize = 0;
        proof {
            assert(doc.styles@ =~= Seq::<StyleEntry>::empty());
            assert(crate::style::views_of_styles(doc.styles@) =~= Seq::<StyleEntryV>::empty());
        }
        while i < n_styles
            invariant
                i <= n_styles,
                n_styles == raw.styles@.len(),
                crate::style::view_opt_string(doc.title) == spec_title_from_raw(raw.title),
                crate::numbering::views_of_numberings(doc.numberings@) == spec_numberings_from_raw(
                    raw.numberings@,
                    raw.numberings@.len(),
                ),
                doc.images@.map_values(|x: ImageEntry| x@) == spec_images_from_raw(
                    raw.media@,
                    raw.media@.len(),
                ),
                crate::style::views_of_styles(doc.styles@) == spec_styles_from_raw(
                    raw.styles@,
                    i as nat,
                ),
                doc.content@.len() == 0,
            decreases n_styles - i,
        {
            let s = &raw.styles[i];
            if s.is_paragraph {
                if let Some(p) = &s.property {
                    let style = crate::style::ParagraphStyle::from_property(p);
                    upsert_style(&mut doc.styles, StyleEntry { id: s.style_id.clone(), style });
                }
            }
            i = i + 1;
        }

        let n_body = raw.body.len();
        let mut i: usize = 0;
        proof {
            assert(doc.content@ =~= Seq::<MarkdownContent>::empty());
            assert(views_of_content(doc.content@) =~= Seq::<ContentV>::empty());
        }
        while i < n_body
            invariant
                i <= n_body,
                n_body == raw.body@.len(),
                crate::style::view_opt_string(doc.title) == spec_title_from_raw(raw.title),
                crate::numbering::views_of_numberings(doc.numberings@) == spec_numberings_from_raw(
                    raw.numberings@,
                    raw.numberings@.len(),
                ),
                doc.images@.map_values(|x: ImageEntry| x@) == spec_images_from_raw(
                    raw.media@,
                    raw.media@.len(),
                ),
                crate::style::views_of_styles(doc.styles@) == spec_styles_from_raw(
                    raw.styles@,
                    raw.styles@.len(),
                ),
                views_of_content(doc.content@) == spec_body_from_raw(
                    raw.body@,
                    raw.relationships@,
                    i as nat,
                ),
            decreases n_body - i,
        {
            match &raw.body[i] {
                RawBodyContent::Paragraph(paragraph) => {
                    let markdown_paragraph = MarkdownParagraph::from_paragraph(
                        paragraph,
                        &raw.relationships,
                    );
                    if markdown_paragraph.blocks.len() > 0 {
                        doc.content.push(MarkdownContent::Paragraph(markdown_paragraph));
                        proof {
                            assert(views_of_content(doc.content@) =~= views_of_content(
                                doc.content@.drop_last(),
                            ).push(doc.content@.last()@));
                        }
                    }
                },
                RawBodyContent::Table(table) => {
                    let mut rows: Vec<MarkdownTableRow> = Vec::new();
                    let n_rows = table.rows.len();
                    let mut r: usize = 0;
                    proof {
                        assert(views_of_rows(rows@) =~= Seq::<TableRowV>::empty());
                    }
                    while r < n_rows
                        invariant
                            r <= n_rows,
                            n_rows == table.rows@.len(),
                            views_of_rows(rows@) == spec_table_from_raw(
                                *table,
                                raw.relationships@,
                                r as nat,
                            ),
                        decreases n_rows - r,
                    {
                        let raw_row = &table.rows[r];
                        let mut cells: Vec<MarkdownTableCell> = Vec::new();
                        let n_cells = raw_row.cells.len();
                        let mut c: usize = 0;
                        proof {
                            assert(cells@.map_values(|x: MarkdownTableCell| views_of_cell(x@))
                                =~= Seq::<Seq<ParagraphV>>::empty());
                        }
                        while c < n_cells
                            invariant
                                c <= n_cells,
                                n_cells == raw_row.cells@.len(),
                                cells@.map_values(|x: MarkdownTableCell| views_of_cell(x@))
                                    == spec_row_cells_from_raw(
                                    *raw_row,
                                    raw.relationships@,
                                    c as nat,
                                ),
                            decreases n_cells - c,
                        {
                            let raw_cell = &raw_row.cells[c];
                            if raw_cell.paragraphs.len() > 0 {
                                let mut ps: Vec<MarkdownParagraph> = Vec::new();
                                let n_ps = raw_cell.paragraphs.len();
                                let mut p: usize = 0;
                                proof {
                                    assert(views_of_cell(ps@) =~= Seq::<ParagraphV>::empty());
                                }
                                while p < n_ps
                                    invariant
                                        p <= n_ps,
                                        n_ps == raw_cell.paragraphs@.len(),
                                        views_of_cell(ps@) == spec_cell_from_raw(
                                            *raw_cell,
                                            raw.relationships@,
                                            p as nat,
                                        ),
                                    decreases n_ps - p,
                                {
                                    ps.push(
                                        MarkdownParagraph::from_paragraph(
                                            &raw_cell.paragraphs[p],
                                            &raw.relationships,
                                        ),
                                    );
                                    proof {
                                        assert(views_of_cell(ps@) =~= views_of_cell(
                                            ps@.drop_last(),
                                        ).push(ps@.last()@));
                                    }
                                    p = p + 1;
                                }
                                cells.push(ps);
                                proof {
                                    assert(cells@.map_values(
                                        |x: MarkdownTableCell| views_of_cell(x@),
                                    ) =~= spec_row_cells_from_raw(
                                        *raw_row,
                                        raw.relationships@,
                                        (c + 1) as nat,
                                    ));
                                }
                            }
                            c = c + 1;
                        }
                        rows.push(MarkdownTableRow { is_header: raw_row.is_header, cells });
                        proof {
                            assert(views_of_rows(rows@) =~= spec_table_from_raw(
                                *table,
                                raw.relationships@,
                                (r + 1) as nat,
                            ));
                        }
                        r = r + 1;
                    }
                    doc.content.push(MarkdownContent::Table(rows));
                    proof {
                        assert(views_of_content(doc.content@) =~= views_of_content(
                            doc.content@.drop_last(),
                        ).push(doc.content@.last()@));
                    }
                },
                RawBodyContent::Other => {},
            }
            i = i + 1;
        }
        proof {
            assert(doc@ =~= spec_document_from_raw(*raw));
        }
        doc
    }
}

} // verus!
