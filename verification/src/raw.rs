//! The abstract input tree that the document parser hands to the library.
//!
//! Every field is a plain value. Boolean fields on `RawRunProperty` record
//! only whether the corresponding toggle property is present in the source;
//! what presence means for the effective formatting is decided by the style
//! resolver.

use vstd::prelude::*;
use crate::style::view_opt_string;

verus! {

/// One run-property record: which character toggles are present, and the
/// declared size, if any.
#[derive(Debug, Clone, Copy)]
pub struct RawRunProperty {
    pub size: Option<isize>,
    pub bold: bool,
    pub underline: bool,
    pub italics: bool,
    pub emphasis: bool,
    pub strike: bool,
    pub dstrike: bool,
}

/// A paragraph's reference to a numbering definition.
#[derive(Debug, Clone, Copy)]
pub struct RawNumberingRef {
    pub id: Option<isize>,
    pub level: Option<isize>,
}

/// A paragraph's local property record.
#[derive(Debug)]
pub struct RawParagraphProperty {
    pub style_id: Option<String>,
    pub outline_lvl: Option<isize>,
    pub page_break_before: Option<bool>,
    pub numbering: Option<RawNumberingRef>,
    pub run_properties: Vec<RawRunProperty>,
}

/// An inline drawing inside a run: the embedded relationship id of its
/// image, and its description, when present.
#[derive(Debug)]
pub struct RawDrawing {
    pub embed_id: Option<String>,
    pub description: Option<String>,
}

/// One content item of a run.
#[derive(Debug)]
pub enum RawRunContent {
    Text(String),
    Drawing(RawDrawing),
    Other,
}

/// A run: a span of content under one set of character formatting.
#[derive(Debug)]
pub struct RawRun {
    pub property: Option<RawRunProperty>,
    pub content: Vec<RawRunContent>,
}

/// A hyperlink: its description is the first content item inside it when
/// that item is a text run; its target is either an internal anchor or a
/// relationship id.
#[derive(Debug)]
pub struct RawLink {
    pub description: Option<String>,
    pub anchor: Option<String>,
    pub rel_id: Option<String>,
}

/// A bookmark start marker.
#[derive(Debug)]
pub struct RawBookmark {
    pub name: Option<String>,
}

/// One content item of a paragraph.
#[derive(Debug)]
pub enum RawParagraphContent {
    Run(RawRun),
    Link(RawLink),
    BookmarkStart(RawBookmark),
    Other,
}

/// A paragraph of the document body or of a table cell.
#[derive(Debug)]
pub struct RawParagraph {
    pub property: Option<RawParagraphProperty>,
    pub content: Vec<RawParagraphContent>,
}

/// One entry of the relationship table.
#[derive(Debug)]
pub struct RelEntry {
    pub id: String,
    pub target: String,
}

/// A table cell: its paragraphs in order.
#[derive(Debug)]
pub struct RawTableCell {
    pub paragraphs: Vec<RawParagraph>,
}

/// A table row: its header flag and its cells in order.
#[derive(Debug)]
pub struct RawTableRow {
    pub is_header: bool,
    pub cells: Vec<RawTableCell>,
}

/// A table: its rows in order.
#[derive(Debug)]
pub struct RawTable {
    pub rows: Vec<RawTableRow>,
}

/// One item of the document body.
#[derive(Debug)]
pub enum RawBodyContent {
    Paragraph(RawParagraph),
    Table(RawTable),
    Other,
}

/// A named style definition.
#[derive(Debug)]
pub struct RawStyleDef {
    pub style_id: String,
    pub is_paragraph: bool,
    pub property: Option<RawParagraphProperty>,
}

/// A numbering definition: the first level's format and level text.
#[derive(Debug)]
pub struct RawNumberingDef {
    pub id: isize,
    pub format: Option<String>,
    pub level_text: Option<String>,
}

/// One entry of the media table.
#[derive(Debug)]
pub struct RawMedia {
    pub id: String,
    pub data: Vec<u8>,
    pub is_image: bool,
}

/// The whole parsed document, as plain values.
#[derive(Debug)]
pub struct RawDocument {
    pub title: Option<String>,
    pub styles: Vec<RawStyleDef>,
    pub numberings: Vec<RawNumberingDef>,
    pub relationships: Vec<RelEntry>,
    pub media: Vec<RawMedia>,
    pub body: Vec<RawBodyContent>,
}

/// The target of the first relationship entry carrying `id`, if any.
pub open spec fn spec_rel_lookup(rels: Seq<RelEntry>, id: Seq<char>) -> Option<Seq<char>>
    decreases rels.len(),
{
    if rels.len() == 0 {
        Option::None
    } else if rels[0].id@ == id {
        Option::Some(rels[0].target@)
    } else {
        spec_rel_lookup(rels.skip(1), id)
    }
}

/// Resolve a relationship id to its target.
pub fn rel_lookup(rels: &Vec<RelEntry>, id: &String) -> (r: Option<String>)
    ensures
        view_opt_string(r) == spec_rel_lookup(rels@, id@),
{
    let mut i: usize = 0;
    proof {
        assert(rels@.skip(0) =~= rels@);
    }
    while i < rels.len()
        invariant
            i <= rels@.len(),
            spec_rel_lookup(rels@, id@) == spec_rel_lookup(rels@.skip(i as int), id@),
        decreases rels@.len() - i,
    {
        proof {
            assert(rels@.skip(i as int)[0] == rels@[i as int]);
            assert(rels@.skip(i as int).skip(1) =~= rels@.skip(i as int + 1));
        }
        if rels[i].id.eq(id) {
            return Some(rels[i].target.clone());
        }
        i = i + 1;
    }
    proof {
        assert(rels@.skip(i as int).len() == 0);
    }
    None
}

} // verus!
