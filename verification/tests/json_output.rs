use docx_parser::block::{TextBlock, TextType};
use docx_parser::document::{ImageEntry, MarkdownContent, MarkdownDocument, MarkdownTableRow};
use docx_parser::json::{hex_bytes, json_block_style, json_string};
use docx_parser::paragraph::MarkdownParagraph;
use docx_parser::style::{BlockStyle, MarkdownNumbering, ParagraphStyle, StyleEntry};

fn plain_paragraph(text: &str) -> MarkdownParagraph {
    MarkdownParagraph {
        style: None,
        blocks: vec![TextBlock::new(text.to_string(), None, TextType::Text)],
    }
}

fn sample_document() -> MarkdownDocument {
    let style = ParagraphStyle {
        style_id: None,
        outline_lvl: Some(2),
        numbering: None,
        page_break_before: Some(true),
        style: Some(BlockStyle { bold: true, italics: false, underline: false, strike: false, size: Some(24) }),
    };
    MarkdownDocument {
        title: Some("T".to_string()),
        content: vec![
            MarkdownContent::Paragraph(plain_paragraph("hello")),
            MarkdownContent::Table(vec![MarkdownTableRow {
                is_header: true,
                cells: vec![vec![plain_paragraph("c")]],
            }]),
        ],
        styles: vec![StyleEntry { id: "Heading2".to_string(), style }],
        numberings: vec![MarkdownNumbering {
            id: Some(2),
            indent_level: None,
            format: Some("bullet".to_string()),
            level_text: Some("\u{2022}".to_string()),
        }],
        images: vec![ImageEntry { id: "rId1".to_string(), data: vec![0, 255, 16] }],
    }
}

#[test]
fn block_style_members_in_order_with_size_omitted() {
    let s = BlockStyle { bold: false, italics: true, underline: false, strike: false, size: None };
    assert_eq!(
        json_block_style(&s),
        "{\"bold\":false,\"italics\":true,\"underline\":false,\"strike\":false}",
    );
}

#[test]
fn block_style_size_included_when_present() {
    let s = BlockStyle { bold: false, italics: false, underline: false, strike: false, size: Some(-3) };
    assert_eq!(
        json_block_style(&s),
        "{\"bold\":false,\"italics\":false,\"underline\":false,\"strike\":false,\"size\":-3}",
    );
}

#[test]
fn string_escaping_covers_quotes_and_control_characters() {
    let s = "a\"b\\c\nd\te\u{1}".to_string();
    assert_eq!(json_string(&s), "\"a\\\"b\\\\c\\nd\\te\\u0001\"");
}

#[test]
fn image_bytes_encode_as_lowercase_hex() {
    assert_eq!(hex_bytes(&vec![0u8, 255, 16]), "00ff10");
}

#[test]
fn document_json_is_well_formed_and_structural() {
    let doc = sample_document();
    let text = doc.to_json(false).unwrap();
    let v: serde_json::Value = serde_json::from_str(&text).unwrap();

    assert_eq!(v["title"], serde_json::Value::String("T".to_string()));
    assert_eq!(v["content"][0]["paragraph"]["blocks"][0]["text"], "hello");
    assert_eq!(v["content"][0]["paragraph"]["blocks"][0]["textType"], "Text");
    assert!(v["content"][0]["paragraph"].get("style").is_none());
    assert_eq!(v["content"][1]["table"][0]["isHeader"], true);
    assert_eq!(v["content"][1]["table"][0]["cells"][0][0]["blocks"][0]["text"], "c");
    assert_eq!(v["styles"]["Heading2"]["outlineLvl"], 2);
    assert_eq!(v["styles"]["Heading2"]["pageBreakBefore"], true);
    assert_eq!(v["styles"]["Heading2"]["style"]["bold"], true);
    assert_eq!(v["styles"]["Heading2"]["style"]["size"], 24);
    assert!(v["styles"]["Heading2"].get("styleId").is_none());
    assert_eq!(v["numberings"]["2"]["id"], 2);
    assert_eq!(v["numberings"]["2"]["format"], "bullet");
    assert_eq!(v["images"]["rId1"], "00ff10");
}

#[test]
fn parsed_json_reconstructs_core_document_fields() {
    let doc = sample_document();
    let text = doc.to_json(true).unwrap();
    let v: serde_json::Value = serde_json::from_str(&text).unwrap();

    assert_eq!(v["title"].as_str(), doc.title.as_deref());
    assert_eq!(v["content"].as_array().unwrap().len(), doc.content.len());
    let style_keys: Vec<&String> = v["styles"].as_object().unwrap().keys().collect();
    assert_eq!(style_keys, vec![&doc.styles[0].id]);
    let numbering_keys: Vec<&String> = v["numberings"].as_object().unwrap().keys().collect();
    assert_eq!(numbering_keys, vec![&"2".to_string()]);
    let image_keys: Vec<&String> = v["images"].as_object().unwrap().keys().collect();
    assert_eq!(image_keys, vec![&doc.images[0].id]);
}

#[test]
fn absent_optional_fields_are_omitted_not_null() {
    let doc = MarkdownDocument::new();
    let text = doc.to_json(false).unwrap();
    let v: serde_json::Value = serde_json::from_str(&text).unwrap();
    assert!(v.get("title").is_none());
    assert_eq!(v["content"].as_array().unwrap().len(), 0);
    assert_eq!(text, "{\"content\":[],\"styles\":{},\"numberings\":{},\"images\":{}}");
}
