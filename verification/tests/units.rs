use docx_parser::numbering::{
    NumberFormat, NumberingCounter, counter_take, marker_symbol, parse_number_format,
};
use docx_parser::style::{BlockStyle, ParagraphStyle};
use docx_parser::text::{isize_to_string, usize_to_string};

#[test]
fn decimal_strings() {
    assert_eq!(usize_to_string(0), "0");
    assert_eq!(usize_to_string(42), "42");
    assert_eq!(usize_to_string(90210), "90210");
    assert_eq!(isize_to_string(-7), "-7");
    assert_eq!(isize_to_string(isize::MIN), format!("{}", isize::MIN));
}

#[test]
fn format_names_parse_and_fall_back() {
    assert!(matches!(parse_number_format(&"upperRoman".to_string()), NumberFormat::UpperRoman));
    assert!(matches!(parse_number_format(&"lowerRoman".to_string()), NumberFormat::LowerRoman));
    assert!(matches!(parse_number_format(&"upperLetter".to_string()), NumberFormat::UpperLetter));
    assert!(matches!(parse_number_format(&"lowerLetter".to_string()), NumberFormat::LowerLetter));
    assert!(matches!(parse_number_format(&"bullet".to_string()), NumberFormat::Bullet));
    assert!(matches!(parse_number_format(&"decimal".to_string()), NumberFormat::Decimal));
    assert!(matches!(parse_number_format(&"ordinal".to_string()), NumberFormat::Decimal));
    assert!(matches!(parse_number_format(&"no such".to_string()), NumberFormat::Decimal));
}

#[test]
fn letter_markers_for_first_counts() {
    assert_eq!(marker_symbol(NumberFormat::UpperLetter, &None, 0), "A.");
    assert_eq!(marker_symbol(NumberFormat::UpperLetter, &None, 1), "B.");
    assert_eq!(marker_symbol(NumberFormat::UpperLetter, &None, 2), "C.");
    assert_eq!(marker_symbol(NumberFormat::LowerLetter, &None, 2), "c.");
    assert_eq!(marker_symbol(NumberFormat::UpperRoman, &None, 0), "I.");
    assert_eq!(marker_symbol(NumberFormat::LowerRoman, &None, 1), "j.");
    assert_eq!(marker_symbol(NumberFormat::Decimal, &None, 0), "1.");
    assert_eq!(marker_symbol(NumberFormat::Decimal, &None, 41), "42.");
}

#[test]
fn letter_markers_wrap_past_the_alphabet() {
    assert_eq!(marker_symbol(NumberFormat::UpperLetter, &None, 26), "[.");
}

#[test]
fn bullet_marker_depends_on_level_text_blankness() {
    assert_eq!(marker_symbol(NumberFormat::Bullet, &None, 5), "-");
    assert_eq!(marker_symbol(NumberFormat::Bullet, &Some("\u{2022}".to_string()), 5), "-");
    assert_eq!(marker_symbol(NumberFormat::Bullet, &Some(" \t".to_string()), 5), " ");
    assert_eq!(marker_symbol(NumberFormat::Bullet, &Some("".to_string()), 5), " ");
}

#[test]
fn counters_start_at_zero_and_advance_per_list() {
    let mut counters: Vec<NumberingCounter> = Vec::new();
    assert_eq!(counter_take(&mut counters, 5), 0);
    assert_eq!(counter_take(&mut counters, 5), 1);
    assert_eq!(counter_take(&mut counters, 8), 0);
    assert_eq!(counter_take(&mut counters, 5), 2);
    assert_eq!(counter_take(&mut counters, 8), 1);
}

#[test]
fn block_style_combine_overrides_flags_and_keeps_size() {
    let mut run = BlockStyle { bold: true, italics: false, underline: true, strike: false, size: Some(20) };
    let para = BlockStyle { bold: false, italics: true, underline: false, strike: false, size: None };
    run.combine_with(&para);
    assert!(!run.bold);
    assert!(run.italics);
    assert!(!run.underline);
    assert_eq!(run.size, Some(20));

    let mut sized = BlockStyle::new();
    let with_size = BlockStyle { bold: false, italics: false, underline: false, strike: false, size: Some(8) };
    sized.combine_with(&with_size);
    assert_eq!(sized.size, Some(8));
}

#[test]
fn paragraph_style_combine_inherits_absent_values_only() {
    let mut local = ParagraphStyle::new();
    local.outline_lvl = Some(1);
    let mut named = ParagraphStyle::new();
    named.outline_lvl = Some(4);
    named.style_id = Some("base".to_string());
    named.page_break_before = Some(true);
    local.combine_with(&named);
    assert_eq!(local.outline_lvl, Some(1));
    assert_eq!(local.style_id.as_deref(), Some("base"));
    assert_eq!(local.page_break_before, Some(true));
}
