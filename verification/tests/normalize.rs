use docx_parser::block::TextType;
use docx_parser::document::{MarkdownContent, MarkdownDocument};
use docx_parser::paragraph::MarkdownParagraph;
use docx_parser::raw::{
    RawBodyContent, RawBookmark, RawDocument, RawDrawing, RawLink, RawMedia, RawNumberingDef,
    RawParagraph, RawParagraphContent, RawParagraphProperty, RawRun, RawRunContent,
    RawRunProperty, RawStyleDef, RawTable, RawTableCell, RawTableRow, RelEntry,
};

fn no_toggles() -> RawRunProperty {
    RawRunProperty {
        size: None,
        bold: false,
        underline: false,
        italics: false,
        emphasis: false,
        strike: false,
        dstrike: false,
    }
}

fn text_run(text: &str, property: Option<RawRunProperty>) -> RawParagraphContent {
    RawParagraphContent::Run(RawRun {
        property,
        content: vec![RawRunContent::Text(text.to_string())],
    })
}

fn paragraph_of(content: Vec<RawParagraphContent>) -> RawParagraph {
    RawParagraph { property: None, content }
}

fn empty_raw_document() -> RawDocument {
    RawDocument {
        title: None,
        styles: vec![],
        numberings: vec![],
        relationships: vec![],
        media: vec![],
        body: vec![],
    }
}

#[test]
fn adjacent_same_style_runs_merge_into_one_block() {
    let p = paragraph_of(vec![
        text_run("Hello, ", Some(no_toggles())),
        text_run("world", Some(no_toggles())),
    ]);
    let normalized = MarkdownParagraph::from_paragraph(&p, &vec![]);
    assert_eq!(normalized.blocks.len(), 1);
    assert_eq!(normalized.blocks[0].text, "Hello, world");
    assert!(matches!(normalized.blocks[0].text_type, TextType::Text));
}

#[test]
fn runs_of_different_style_stay_separate() {
    let mut bold = no_toggles();
    bold.bold = true;
    let p = paragraph_of(vec![
        text_run("plain", Some(no_toggles())),
        text_run("bold", Some(bold)),
    ]);
    let normalized = MarkdownParagraph::from_paragraph(&p, &vec![]);
    assert_eq!(normalized.blocks.len(), 2);
    assert_eq!(normalized.blocks[0].text, "plain");
    assert_eq!(normalized.blocks[1].text, "bold");
}

#[test]
fn italics_follows_from_emphasis_marker() {
    let mut prop = no_toggles();
    prop.emphasis = true;
    let p = paragraph_of(vec![text_run("x", Some(prop))]);
    let normalized = MarkdownParagraph::from_paragraph(&p, &vec![]);
    let style = normalized.blocks[0].style.as_ref().unwrap();
    assert!(style.italics);
    assert!(!style.bold);
}

#[test]
fn strike_follows_from_double_strike_marker() {
    let mut prop = no_toggles();
    prop.dstrike = true;
    let p = paragraph_of(vec![text_run("x", Some(prop))]);
    let normalized = MarkdownParagraph::from_paragraph(&p, &vec![]);
    assert!(normalized.blocks[0].style.as_ref().unwrap().strike);
}

#[test]
fn resolved_drawing_becomes_image_block() {
    let p = paragraph_of(vec![RawParagraphContent::Run(RawRun {
        property: None,
        content: vec![RawRunContent::Drawing(RawDrawing {
            embed_id: Some("rId7".to_string()),
            description: Some("a cat".to_string()),
        })],
    })]);
    let rels = vec![RelEntry { id: "rId7".to_string(), target: "media/cat.png".to_string() }];
    let normalized = MarkdownParagraph::from_paragraph(&p, &rels);
    assert_eq!(normalized.blocks.len(), 1);
    assert_eq!(normalized.blocks[0].text, "![a cat](./media/cat.png)");
    assert!(matches!(normalized.blocks[0].text_type, TextType::Image));
}

#[test]
fn unresolved_drawing_contributes_nothing() {
    let p = paragraph_of(vec![RawParagraphContent::Run(RawRun {
        property: None,
        content: vec![RawRunContent::Drawing(RawDrawing {
            embed_id: Some("rId7".to_string()),
            description: None,
        })],
    })]);
    let normalized = MarkdownParagraph::from_paragraph(&p, &vec![]);
    assert_eq!(normalized.blocks.len(), 0);
}

#[test]
fn anchored_link_targets_bookmark() {
    let p = paragraph_of(vec![RawParagraphContent::Link(RawLink {
        description: Some("see here".to_string()),
        anchor: Some("section1".to_string()),
        rel_id: None,
    })]);
    let normalized = MarkdownParagraph::from_paragraph(&p, &vec![]);
    assert_eq!(normalized.blocks[0].text, "[see here](#section1)");
    assert!(matches!(normalized.blocks[0].text_type, TextType::Link));
}

#[test]
fn external_link_resolves_through_relationships() {
    let p = paragraph_of(vec![RawParagraphContent::Link(RawLink {
        description: Some("site".to_string()),
        anchor: None,
        rel_id: Some("rId3".to_string()),
    })]);
    let rels = vec![RelEntry { id: "rId3".to_string(), target: "https://example.org".to_string() }];
    let normalized = MarkdownParagraph::from_paragraph(&p, &rels);
    assert_eq!(normalized.blocks[0].text, "[site](https://example.org)");
}

#[test]
fn link_without_description_is_dropped() {
    let p = paragraph_of(vec![RawParagraphContent::Link(RawLink {
        description: None,
        anchor: Some("a".to_string()),
        rel_id: None,
    })]);
    let normalized = MarkdownParagraph::from_paragraph(&p, &vec![]);
    assert_eq!(normalized.blocks.len(), 0);
}

#[test]
fn link_with_unresolved_relationship_is_dropped() {
    let p = paragraph_of(vec![RawParagraphContent::Link(RawLink {
        description: Some("d".to_string()),
        anchor: None,
        rel_id: Some("missing".to_string()),
    })]);
    let normalized = MarkdownParagraph::from_paragraph(&p, &vec![]);
    assert_eq!(normalized.blocks.len(), 0);
}

#[test]
fn named_bookmark_becomes_anchor_block() {
    let p = paragraph_of(vec![RawParagraphContent::BookmarkStart(RawBookmark {
        name: Some("top".to_string()),
    })]);
    let normalized = MarkdownParagraph::from_paragraph(&p, &vec![]);
    assert_eq!(normalized.blocks[0].text, "<a name=\"top\"></a>");
    assert!(matches!(normalized.blocks[0].text_type, TextType::BookmarkLink));
}

#[test]
fn run_property_fold_takes_last_size() {
    let mut first = no_toggles();
    first.size = Some(20);
    first.bold = true;
    let mut second = no_toggles();
    second.size = Some(28);
    let property = RawParagraphProperty {
        style_id: None,
        outline_lvl: None,
        page_break_before: None,
        numbering: None,
        run_properties: vec![first, second],
    };
    let p = RawParagraph { property: Some(property), content: vec![] };
    let normalized = MarkdownParagraph::from_paragraph(&p, &vec![]);
    let style = normalized.style.unwrap().style.unwrap();
    assert_eq!(style.size, Some(28));
    assert!(style.bold);
}

#[test]
fn empty_paragraphs_are_dropped_from_body() {
    let mut raw = empty_raw_document();
    raw.body = vec![
        RawBodyContent::Paragraph(paragraph_of(vec![])),
        RawBodyContent::Paragraph(paragraph_of(vec![text_run("kept", None)])),
        RawBodyContent::Other,
    ];
    let doc = MarkdownDocument::from_raw(&raw);
    assert_eq!(doc.content.len(), 1);
    assert_eq!(doc.to_markdown(), "kept\n");
}

#[test]
fn empty_title_is_not_kept() {
    let mut raw = empty_raw_document();
    raw.title = Some("".to_string());
    let doc = MarkdownDocument::from_raw(&raw);
    assert!(doc.title.is_none());
}

#[test]
fn non_paragraph_styles_are_filtered_out() {
    let mut raw = empty_raw_document();
    let property = RawParagraphProperty {
        style_id: None,
        outline_lvl: Some(1),
        page_break_before: None,
        numbering: None,
        run_properties: vec![],
    };
    raw.styles = vec![
        RawStyleDef { style_id: "C".to_string(), is_paragraph: false, property: None },
        RawStyleDef { style_id: "H".to_string(), is_paragraph: true, property: Some(property) },
    ];
    let doc = MarkdownDocument::from_raw(&raw);
    assert_eq!(doc.styles.len(), 1);
    assert_eq!(doc.styles[0].id, "H");
}

#[test]
fn only_image_media_is_collected() {
    let mut raw = empty_raw_document();
    raw.media = vec![
        RawMedia { id: "rId1".to_string(), data: vec![1, 2], is_image: true },
        RawMedia { id: "rId2".to_string(), data: vec![3], is_image: false },
    ];
    let doc = MarkdownDocument::from_raw(&raw);
    assert_eq!(doc.images.len(), 1);
    assert_eq!(doc.images[0].id, "rId1");
    assert_eq!(doc.images[0].data, vec![1, 2]);
}

#[test]
fn numbering_definitions_carry_first_level_format() {
    let mut raw = empty_raw_document();
    raw.numberings = vec![RawNumberingDef {
        id: 2,
        format: Some("bullet".to_string()),
        level_text: Some("\u{2022}".to_string()),
    }];
    let doc = MarkdownDocument::from_raw(&raw);
    assert_eq!(doc.numberings.len(), 1);
    assert_eq!(doc.numberings[0].id, Some(2));
    assert_eq!(doc.numberings[0].format.as_deref(), Some("bullet"));
}

#[test]
fn table_rows_and_cells_carry_over_and_empty_cells_drop() {
    let mut raw = empty_raw_document();
    let full_cell = RawTableCell { paragraphs: vec![paragraph_of(vec![text_run("A", None)])] };
    let empty_cell = RawTableCell { paragraphs: vec![] };
    let row = RawTableRow { is_header: true, cells: vec![full_cell, empty_cell] };
    raw.body = vec![RawBodyContent::Table(RawTable { rows: vec![row] })];
    let doc = MarkdownDocument::from_raw(&raw);
    match &doc.content[0] {
        MarkdownContent::Table(rows) => {
            assert_eq!(rows.len(), 1);
            assert!(rows[0].is_header);
            assert_eq!(rows[0].cells.len(), 1);
        },
        _ => panic!("expected a table"),
    }
}

#[test]
fn end_to_end_from_raw_to_markdown() {
    let mut raw = empty_raw_document();
    raw.title = Some("Doc".to_string());
    let mut bold = no_toggles();
    bold.bold = true;
    let heading = RawParagraph {
        property: Some(RawParagraphProperty {
            style_id: None,
            outline_lvl: Some(0),
            page_break_before: None,
            numbering: None,
            run_properties: vec![],
        }),
        content: vec![text_run("Hello", Some(bold))],
    };
    raw.body = vec![RawBodyContent::Paragraph(heading)];
    let doc = MarkdownDocument::from_raw(&raw);
    assert_eq!(doc.to_markdown(), "# Doc\n\n# **Hello**\n");
}
