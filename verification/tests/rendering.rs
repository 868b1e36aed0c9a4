use docx_parser::block::{TextBlock, TextType};
use docx_parser::document::{MarkdownContent, MarkdownDocument, MarkdownTableRow};
use docx_parser::paragraph::MarkdownParagraph;
use docx_parser::style::{BlockStyle, MarkdownNumbering, ParagraphStyle, StyleEntry};

fn plain_block(text: &str) -> TextBlock {
    TextBlock::new(text.to_string(), None, TextType::Text)
}

fn plain_paragraph(text: &str) -> MarkdownParagraph {
    MarkdownParagraph { style: None, blocks: vec![plain_block(text)] }
}

fn outline_paragraph(level: isize, block: TextBlock) -> MarkdownParagraph {
    MarkdownParagraph {
        style: Some(ParagraphStyle {
            style_id: None,
            outline_lvl: Some(level),
            numbering: None,
            page_break_before: None,
            style: None,
        }),
        blocks: vec![block],
    }
}

fn numbered_paragraph(list_id: isize, indent: Option<isize>, text: &str) -> MarkdownParagraph {
    MarkdownParagraph {
        style: Some(ParagraphStyle {
            style_id: None,
            outline_lvl: None,
            numbering: Some(MarkdownNumbering {
                id: Some(list_id),
                indent_level: indent,
                format: None,
                level_text: None,
            }),
            page_break_before: None,
            style: None,
        }),
        blocks: vec![plain_block(text)],
    }
}

fn doc_with(content: Vec<MarkdownContent>) -> MarkdownDocument {
    MarkdownDocument { title: None, content, styles: vec![], numberings: vec![], images: vec![] }
}

fn definition(id: isize, format: &str, level_text: Option<&str>) -> MarkdownNumbering {
    MarkdownNumbering {
        id: Some(id),
        indent_level: None,
        format: Some(format.to_string()),
        level_text: level_text.map(|t| t.to_string()),
    }
}

fn cell(text: &str) -> Vec<MarkdownParagraph> {
    vec![plain_paragraph(text)]
}

#[test]
fn heading_level_zero_with_bold_run() {
    let bold = BlockStyle { bold: true, italics: false, underline: false, strike: false, size: None };
    let block = TextBlock::new("Hello".to_string(), Some(bold), TextType::Text);
    let doc = doc_with(vec![MarkdownContent::Paragraph(outline_paragraph(0, block))]);
    assert_eq!(doc.to_markdown(), "# **Hello**\n");
}

#[test]
fn heading_levels_map_and_clamp() {
    for (level, hashes) in [(0, 1), (1, 2), (2, 3), (3, 4), (4, 5), (5, 6), (9, 6)] {
        let doc = doc_with(vec![MarkdownContent::Paragraph(outline_paragraph(
            level,
            plain_block("t"),
        ))]);
        let expected = format!("{} t\n", "#".repeat(hashes));
        assert_eq!(doc.to_markdown(), expected);
    }
}

#[test]
fn emphasis_nesting_order() {
    let style = BlockStyle { bold: true, italics: true, underline: true, strike: true, size: None };
    let block = TextBlock::new("x".to_string(), Some(style), TextType::Text);
    let p = MarkdownParagraph { style: None, blocks: vec![block] };
    let doc = doc_with(vec![MarkdownContent::Paragraph(p)]);
    assert_eq!(doc.to_markdown(), "~~__***x***__~~\n");
}

#[test]
fn title_heading_precedes_content() {
    let mut doc = doc_with(vec![MarkdownContent::Paragraph(plain_paragraph("body"))]);
    doc.title = Some("My Title".to_string());
    assert_eq!(doc.to_markdown(), "# My Title\n\nbody\n");
}

#[test]
fn blank_line_between_items_but_not_after_last() {
    let doc = doc_with(vec![
        MarkdownContent::Paragraph(plain_paragraph("one")),
        MarkdownContent::Paragraph(plain_paragraph("two")),
    ]);
    assert_eq!(doc.to_markdown(), "one\n\ntwo\n");
}

#[test]
fn upper_letter_numbering_counts() {
    let mut doc = doc_with(vec![
        MarkdownContent::Paragraph(numbered_paragraph(7, None, "a")),
        MarkdownContent::Paragraph(numbered_paragraph(7, None, "b")),
        MarkdownContent::Paragraph(numbered_paragraph(7, None, "c")),
    ]);
    doc.numberings = vec![definition(7, "upperLetter", None)];
    assert_eq!(doc.to_markdown(), "A. a\n\nB. b\n\nC. c\n");
}

#[test]
fn lower_letter_and_roman_symbols() {
    let mut doc = doc_with(vec![
        MarkdownContent::Paragraph(numbered_paragraph(1, None, "x")),
        MarkdownContent::Paragraph(numbered_paragraph(2, None, "y")),
    ]);
    doc.numberings = vec![
        definition(1, "lowerLetter", None),
        definition(2, "upperRoman", None),
    ];
    assert_eq!(doc.to_markdown(), "a. x\n\nI. y\n");
}

#[test]
fn bullet_with_non_blank_level_text_is_dash() {
    let mut doc = doc_with(vec![
        MarkdownContent::Paragraph(numbered_paragraph(4, None, "first")),
        MarkdownContent::Paragraph(numbered_paragraph(4, None, "second")),
    ]);
    doc.numberings = vec![definition(4, "bullet", Some("\u{2022}"))];
    assert_eq!(doc.to_markdown(), "- first\n\n- second\n");
}

#[test]
fn bullet_with_blank_level_text_is_invisible() {
    let mut doc = doc_with(vec![MarkdownContent::Paragraph(numbered_paragraph(4, None, "x"))]);
    doc.numberings = vec![definition(4, "bullet", Some(" "))];
    assert_eq!(doc.to_markdown(), "  x\n");
}

#[test]
fn unrecognized_format_falls_back_to_decimal() {
    let mut doc = doc_with(vec![
        MarkdownContent::Paragraph(numbered_paragraph(3, None, "p")),
        MarkdownContent::Paragraph(numbered_paragraph(3, None, "q")),
    ]);
    doc.numberings = vec![definition(3, "cardinalText", None)];
    assert_eq!(doc.to_markdown(), "1. p\n\n2. q\n");
}

#[test]
fn missing_definition_falls_back_to_decimal() {
    let doc = doc_with(vec![MarkdownContent::Paragraph(numbered_paragraph(99, None, "p"))]);
    assert_eq!(doc.to_markdown(), "1. p\n");
}

#[test]
fn indent_level_adds_four_spaces_each() {
    let mut doc = doc_with(vec![MarkdownContent::Paragraph(numbered_paragraph(
        5,
        Some(2),
        "deep",
    ))]);
    doc.numberings = vec![definition(5, "bullet", None)];
    assert_eq!(doc.to_markdown(), "        - deep\n");
}

#[test]
fn counters_persist_across_interleaved_content() {
    let mut doc = doc_with(vec![
        MarkdownContent::Paragraph(numbered_paragraph(6, None, "one")),
        MarkdownContent::Paragraph(plain_paragraph("interlude")),
        MarkdownContent::Paragraph(numbered_paragraph(6, None, "two")),
    ]);
    doc.numberings = vec![definition(6, "decimal", None)];
    assert_eq!(doc.to_markdown(), "1. one\n\ninterlude\n\n2. two\n");
}

#[test]
fn rendering_twice_reproduces_identical_output() {
    let mut doc = doc_with(vec![
        MarkdownContent::Paragraph(numbered_paragraph(8, None, "a")),
        MarkdownContent::Paragraph(numbered_paragraph(8, None, "b")),
    ]);
    doc.numberings = vec![definition(8, "upperLetter", None)];
    let first = doc.to_markdown();
    let second = doc.to_markdown();
    assert_eq!(first, second);
    assert_eq!(first, "A. a\n\nB. b\n");
}

#[test]
fn named_style_supplies_outline_level() {
    let p = MarkdownParagraph {
        style: Some(ParagraphStyle {
            style_id: Some("Heading1".to_string()),
            outline_lvl: None,
            numbering: None,
            page_break_before: None,
            style: None,
        }),
        blocks: vec![plain_block("t")],
    };
    let mut doc = doc_with(vec![MarkdownContent::Paragraph(p)]);
    doc.styles = vec![StyleEntry {
        id: "Heading1".to_string(),
        style: ParagraphStyle {
            style_id: None,
            outline_lvl: Some(1),
            numbering: None,
            page_break_before: None,
            style: None,
        },
    }];
    assert_eq!(doc.to_markdown(), "## t\n");
}

#[test]
fn local_outline_wins_over_named_style() {
    let p = MarkdownParagraph {
        style: Some(ParagraphStyle {
            style_id: Some("H".to_string()),
            outline_lvl: Some(0),
            numbering: None,
            page_break_before: None,
            style: None,
        }),
        blocks: vec![plain_block("t")],
    };
    let mut doc = doc_with(vec![MarkdownContent::Paragraph(p)]);
    doc.styles = vec![StyleEntry {
        id: "H".to_string(),
        style: ParagraphStyle {
            style_id: None,
            outline_lvl: Some(3),
            numbering: None,
            page_break_before: None,
            style: None,
        },
    }];
    assert_eq!(doc.to_markdown(), "# t\n");
}

#[test]
fn paragraph_run_default_overrides_run_flags() {
    let bold_run = BlockStyle { bold: true, italics: false, underline: false, strike: false, size: None };
    let para_default = BlockStyle { bold: false, italics: true, underline: false, strike: false, size: None };
    let p = MarkdownParagraph {
        style: Some(ParagraphStyle {
            style_id: None,
            outline_lvl: None,
            numbering: None,
            page_break_before: None,
            style: Some(para_default),
        }),
        blocks: vec![TextBlock::new("t".to_string(), Some(bold_run), TextType::Text)],
    };
    let doc = doc_with(vec![MarkdownContent::Paragraph(p)]);
    assert_eq!(doc.to_markdown(), "*t*\n");
}

#[test]
fn two_row_table_with_header() {
    let table = vec![
        MarkdownTableRow { is_header: true, cells: vec![cell("A"), cell("B")] },
        MarkdownTableRow { is_header: false, cells: vec![cell("1"), cell("22")] },
    ];
    let doc = doc_with(vec![MarkdownContent::Table(table)]);
    assert_eq!(doc.to_markdown(), "| A   | B   |\n| --- | --- |\n| 1   | 22  |\n");
}

#[test]
fn headerless_table_synthesizes_blank_header() {
    let table = vec![MarkdownTableRow { is_header: false, cells: vec![cell("A")] }];
    let doc = doc_with(vec![MarkdownContent::Table(table)]);
    assert_eq!(doc.to_markdown(), "|     |\n| --- |\n| A   |\n");
}

#[test]
fn column_width_is_maximum_over_rows_floored_at_three() {
    let table = vec![
        MarkdownTableRow { is_header: true, cells: vec![cell("x"), cell("wide cell")] },
        MarkdownTableRow { is_header: false, cells: vec![cell("y"), cell("s")] },
    ];
    let doc = doc_with(vec![MarkdownContent::Table(table)]);
    assert_eq!(
        doc.to_markdown(),
        "| x   | wide cell |\n| --- | --------- |\n| y   | s         |\n",
    );
}

#[test]
fn cell_paragraphs_join_with_break_marker() {
    let two = vec![plain_paragraph("a"), plain_paragraph("b")];
    let table = vec![MarkdownTableRow { is_header: true, cells: vec![two] }];
    let doc = doc_with(vec![MarkdownContent::Table(table)]);
    assert_eq!(doc.to_markdown(), "| a<br/>b |\n| ------- |\n");
}

#[test]
fn list_counter_shared_with_table_cells() {
    let numbered_cell = vec![numbered_paragraph(9, None, "in cell")];
    let table = vec![MarkdownTableRow { is_header: true, cells: vec![numbered_cell] }];
    let mut doc = doc_with(vec![
        MarkdownContent::Paragraph(numbered_paragraph(9, None, "before")),
        MarkdownContent::Table(table),
        MarkdownContent::Paragraph(numbered_paragraph(9, None, "after")),
    ]);
    doc.numberings = vec![definition(9, "decimal", None)];
    let md = doc.to_markdown();
    assert!(md.contains("1. before"));
    assert!(md.contains("2. in cell"));
    assert!(md.contains("3. after"));
}

#[test]
fn empty_document_renders_empty() {
    let doc = MarkdownDocument::new();
    assert_eq!(doc.to_markdown(), "");
}
