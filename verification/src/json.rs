//! A JSON rendering of the normalized document: lower-camel-case field
//! names, absent optional values omitted entirely, and image bytes encoded
//! as hexadecimal strings keyed by relationship id.

use vstd::prelude::*;
use vstd::string::*;
use crate::block::{TextBlock, TextBlockV, TextType};
use crate::document::{MarkdownContent, ContentV, MarkdownTableRow, TableRowV};
use crate::paragraph::{MarkdownParagraph, ParagraphV};
use crate::style::{
    BlockStyle, MarkdownNumbering, NumberingV, ParagraphStyle, ParagraphStyleV,
};
use crate::table::views_of_strings;
use crate::text::{spec_int_string, isize_to_string};

verus! {

/// The hexadecimal digit character for a value below sixteen.
pub open spec fn spec_hex_digit(d: nat) -> char {
    if d < 10 {
        ((48 + d) as u8) as char
    } else {
        ((87 + d) as u8) as char
    }
}

fn hex_digit(d: u8) -> (c: char)
    requires
        d < 16,
    ensures
        c == spec_hex_digit(d as nat),
{
    if d < 10 {
        (48 + d) as char
    } else {
        (87 + d) as char
    }
}

/// The escaped form of one character inside a JSON string: the quote, the
/// backslash and the common control characters get two-character escapes,
/// any other control character a `\u00` escape, and everything else stands
/// as itself.
pub open spec fn spec_escape_char(c: char) -> Seq<char> {
    if c == '"' {
        seq!['\\', '"']
    } else if c == '\\' {
        seq!['\\', '\\']
    } else if c == '\n' {
        seq!['\\', 'n']
    } else if c == '\r' {
        seq!['\\', 'r']
    } else if c == '\t' {
        seq!['\\', 't']
    } else if (c as nat) < 32 {
        seq!['\\', 'u', '0', '0', spec_hex_digit((c as nat) / 16), spec_hex_digit((c as nat) % 16)]
    } else {
        seq![c]
    }
}

/// The first `n` characters of `s`, each escaped.
pub open spec fn spec_escape(s: Seq<char>, n: nat) -> Seq<char>
    decreases n,
{
    if n == 0 {
        Seq::empty()
    } else {
        spec_escape(s, (n - 1) as nat) + spec_escape_char(s[n - 1])
    }
}

/// A JSON string literal: the text escaped, between double quotes.
pub open spec fn spec_json_string(s: Seq<char>) -> Seq<char> {
    seq!['"'] + spec_escape(s, s.len()) + seq!['"']
}

/// Render a JSON string literal.
pub fn json_string(s: &String) -> (r: String)
    ensures
        r@ == spec_json_string(s@),
{
    let mut r = String::new();
    r.push('"');
    let st = s.as_str();
    let n = st.unicode_len();
    let mut i: usize = 0;
    while i < n
        invariant
            i <= n,
            n == s@.len(),
            st@ == s@,
            r@ == seq!['"'] + spec_escape(s@, i as nat),
        decreases n - i,
    {
        let c = st.get_char(i);
        if c == '"' {
            r.push('\\');
            r.push('"');
        } else if c == '\\' {
            r.push('\\');
            r.push('\\');
        } else if c == '\n' {
            r.push('\\');
            r.push('n');
        } else if c == '\r' {
            r.push('\\');
            r.push('r');
        } else if c == '\t' {
            r.push('\\');
            r.push('t');
        } else if (c as u32) < 32 {
            r.push('\\');
            r.push('u');
            r.push('0');
            r.push('0');
            let code = (c as u32) as u8;
            r.push(hex_digit(code / 16));
            r.push(hex_digit(code % 16));
        } else {
            r.push(c);
        }
        proof {
            assert(r@ =~= seq!['"'] + spec_escape(s@, (i + 1) as nat));
        }
        i = i + 1;
    }
    r.push('"');
    proof {
        assert(r@ =~= spec_json_string(s@));
    }
    r
}

/// The first `n` bytes of `data` in lower-case hexadecimal, two digits per
/// byte.
pub open spec fn spec_hex_bytes(data: Seq<u8>, n: nat) -> Seq<char>
    decreases n,
{
    if n == 0 {
        Seq::empty()
    } else {
        spec_hex_bytes(data, (n - 1) as nat) + seq![
            spec_hex_digit(data[n - 1] as nat / 16),
            spec_hex_digit(data[n - 1] as nat % 16),
        ]
    }
}

/// Encode bytes as a hexadecimal string.
pub fn hex_bytes(data: &Vec<u8>) -> (r: String)
    ensures
        r@ == spec_hex_bytes(data@, data@.len()),
{
    let mut r = String::new();
    let n = data.len();
    let mut i: usize = 0;
    while i < n
        invariant
            i <= n,
            n == data@.len(),
            r@ == spec_hex_bytes(data@, i as nat),
        decreases n - i,
    {
        let b = data[i];
        r.push(hex_digit(b / 16));
        r.push(hex_digit(b % 16));
        proof {
            assert(r@ =~= spec_hex_bytes(data@, (i + 1) as nat));
        }
        i = i + 1;
    }
    r
}

/// A JSON boolean.
pub open spec fn spec_json_bool(b: bool) -> Seq<char> {
    if b {
        "true"@
    } else {
        "false"@
    }
}

pub fn json_bool(b: bool) -> (r: String)
    ensures
        r@ == spec_json_bool(b),
{
    if b {
        String::from_str("true")
    } else {
        String::from_str("false")
    }
}

/// A JSON number from a signed integer.
pub fn json_int(n: isize) -> (r: String)
    ensures
        r@ == spec_int_string(n as int),
{
    isize_to_string(n)
}

/// The first `n` items joined with commas.
pub open spec fn spec_join_comma(items: Seq<Seq<char>>, n: nat) -> Seq<char>
    decreases n,
{
    if n == 0 {
        Seq::empty()
    } else {
        spec_join_comma(items, (n - 1) as nat) + (if n > 1 {
            ","@
        } else {
            Seq::<char>::empty()
        }) + items[n - 1]
    }
}

/// A JSON object from its rendered members.
pub open spec fn spec_json_object(items: Seq<Seq<char>>) -> Seq<char> {
    "{"@ + spec_join_comma(items, items.len()) + "}"@
}

/// A JSON array from its rendered elements.
pub open spec fn spec_json_array(items: Seq<Seq<char>>) -> Seq<char> {
    "["@ + spec_join_comma(items, items.len()) + "]"@
}

fn join_comma(items: &Vec<String>) -> (r: String)
    ensures
        r@ == spec_join_comma(views_of_strings(items@), items@.len()),
{
    let ghost vs = views_of_strings(items@);
    let mut r = String::new();
    let n = items.len();
    let mut i: usize = 0;
    while i < n
        invariant
            i <= n,
            n == items@.len(),
            vs == views_of_strings(items@),
            r@ == spec_join_comma(vs, i as nat),
        decreases n - i,
    {
        if i > 0 {
            r.append(",");
        }
        r.append(items[i].as_str());
        proof {
            assert(vs[i as int] == items@[i as int]@);
            assert(r@ =~= spec_join_comma(vs, (i + 1) as nat));
        }
        i = i + 1;
    }
    r
}

/// Render a JSON object from its members.
pub fn json_object(items: &Vec<String>) -> (r: String)
    ensures
        r@ == spec_json_object(views_of_strings(items@)),
{
    let mut r = String::from_str("{");
    let joined = join_comma(items);
    r.append(joined.as_str());
    r.append("}");
    proof {
        assert(r@ =~= spec_json_object(views_of_strings(items@)));
    }
    r
}

/// Render a JSON array from its elements.
pub fn json_array(items: &Vec<String>) -> (r: String)
    ensures
        r@ == spec_json_array(views_of_strings(items@)),
{
    let mut r = String::from_str("[");
    let joined = join_comma(items);
    r.append(joined.as_str());
    r.append("]");
    proof {
        assert(r@ =~= spec_json_array(views_of_strings(items@)));
    }
    r
}

/// Render one object member: the key text, already quoted and followed by
/// its colon, then the rendered value.
fn member(key: &str, value: String) -> (r: String)
    ensures
        r@ == key@ + value@,
{
    let mut r = String::from_str(key);
    r.append(value.as_str());
    r
}

/// A JSON value, as a reader of the emitted text sees it: the member list
/// of an object keeps the emitted order.
pub enum JsonV {
    Bool(bool),
    Int(int),
    Str(Seq<char>),
    Arr(Seq<JsonV>),
    Obj(Seq<(Seq<char>, JsonV)>),
}

/// The value of the first member carrying `key`, if any.
pub open spec fn spec_obj_get(members: Seq<(Seq<char>, JsonV)>, key: Seq<char>) -> Option<JsonV>
    decreases members.len(),
{
    if members.len() == 0 {
        Option::None
    } else if members[0].0 == key {
        Option::Some(members[0].1)
    } else {
        spec_obj_get(members.skip(1), key)
    }
}

/// The members of a block style's JSON value, in emitted order.
pub open spec fn spec_block_style_value_members(b: BlockStyle) -> Seq<(Seq<char>, JsonV)> {
    let s = seq![
        ("bold"@, JsonV::Bool(b.bold)),
        ("italics"@, JsonV::Bool(b.italics)),
        ("underline"@, JsonV::Bool(b.underline)),
        ("strike"@, JsonV::Bool(b.strike)),
    ];
    match b.size {
        Option::Some(n) => s.push(("size"@, JsonV::Int(n as int))),
        Option::None => s,
    }
}

/// The JSON value a block style renders to.
pub open spec fn spec_block_style_value(b: BlockStyle) -> JsonV {
    JsonV::Obj(spec_block_style_value_members(b))
}

/// The block style a JSON value describes: the four flags read by key, the
/// size only when a numeric `size` member is present.
pub open spec fn spec_block_style_of_value(j: JsonV) -> Option<BlockStyle> {
    match j {
        JsonV::Obj(ms) => {
            match (
                spec_obj_get(ms, "bold"@),
                spec_obj_get(ms, "italics"@),
                spec_obj_get(ms, "underline"@),
                spec_obj_get(ms, "strike"@),
            ) {
                (
                    Option::Some(JsonV::Bool(bold)),
                    Option::Some(JsonV::Bool(italics)),
                    Option::Some(JsonV::Bool(underline)),
                    Option::Some(JsonV::Bool(strike)),
                ) => {
                    let size = match spec_obj_get(ms, "size"@) {
                        Option::Some(JsonV::Int(n)) => Option::Some(n as isize),
                        _ => Option::None,
                    };
                    Option::Some(BlockStyle { bold, italics, underline, strike, size })
                },
                _ => Option::None,
            }
        },
        _ => Option::None,
    }
}

proof fn lemma_obj_get_hit(members: Seq<(Seq<char>, JsonV)>, key: Seq<char>)
    requires
        members.len() > 0,
        members[0].0 == key,
    ensures
        spec_obj_get(members, key) == Option::Some(members[0].1),
{
}

proof fn lemma_obj_get_miss(members: Seq<(Seq<char>, JsonV)>, key: Seq<char>)
    requires
        members.len() > 0,
        members[0].0 != key,
    ensures
        spec_obj_get(members, key) == spec_obj_get(members.skip(1), key),
{
}

/// One record of the JSON output round-trips: the JSON value a block style
/// renders to, read back member by member, reconstructs the block style
/// exactly, the absent size included.
pub proof fn lemma_block_style_value_round_trip(b: BlockStyle)
    ensures
        spec_block_style_of_value(spec_block_style_value(b)) == Option::Some(b),
{
    reveal_strlit("bold");
    reveal_strlit("italics");
    reveal_strlit("underline");
    reveal_strlit("strike");
    reveal_strlit("size");
    let ms = spec_block_style_value_members(b);
    let m1 = ms.skip(1);
    let m2 = m1.skip(1);
    let m3 = m2.skip(1);
    let m4 = m3.skip(1);
    assert(ms[0] == ("bold"@, JsonV::Bool(b.bold)));
    assert(m1[0] == ("italics"@, JsonV::Bool(b.italics)));
    assert(m2[0] == ("underline"@, JsonV::Bool(b.underline)));
    assert(m3[0] == ("strike"@, JsonV::Bool(b.strike)));
    assert(m1 =~= ms.skip(1));
    assert(m2 =~= ms.skip(2));
    assert(m3 =~= ms.skip(3));
    assert(m4 =~= ms.skip(4));

    assert("bold"@.len() == 4);
    assert("italics"@.len() == 7);
    assert("underline"@.len() == 9);
    assert("strike"@.len() == 6);
    assert("size"@.len() == 4);
    assert("bold"@ != "size"@) by {
        assert("bold"@[0] == 'b');
        assert("size"@[0] == 's');
    }

    lemma_obj_get_hit(ms, "bold"@);
    lemma_obj_get_miss(ms, "italics"@);
    lemma_obj_get_hit(m1, "italics"@);
    lemma_obj_get_miss(ms, "underline"@);
    lemma_obj_get_miss(m1, "underline"@);
    lemma_obj_get_hit(m2, "underline"@);
    lemma_obj_get_miss(ms, "strike"@);
    lemma_obj_get_miss(m1, "strike"@);
    lemma_obj_get_miss(m2, "strike"@);
    lemma_obj_get_hit(m3, "strike"@);
    lemma_obj_get_miss(ms, "size"@);
    lemma_obj_get_miss(m1, "size"@);
    lemma_obj_get_miss(m2, "size"@);
    lemma_obj_get_miss(m3, "size"@);
    match b.size {
        Option::Some(n) => {
            assert(m4[0] == ("size"@, JsonV::Int(n as int)));
            lemma_obj_get_hit(m4, "size"@);
        },
        Option::None => {
            assert(m4.len() == 0);
            assert(spec_obj_get(m4, "size"@) == Option::<JsonV>::None);
        },
    }
}

/// The members of a block style: the four flags always, the size only when
/// declared.
pub open spec fn spec_block_style_items(b: BlockStyle) -> Seq<Seq<char>> {
    let s = seq![
        "\"bold\":"@ + spec_json_bool(b.bold),
        "\"italics\":"@ + spec_json_bool(b.italics),
        "\"underline\":"@ + spec_json_bool(b.underline),
        "\"strike\":"@ + spec_json_bool(b.strike),
    ];
    match b.size {
        Option::Some(n) => s.push("\"size\":"@ + spec_int_string(n as int)),
        Option::None => s,
    }
}

pub open spec fn spec_json_block_style(b: BlockStyle) -> Seq<char> {
    spec_json_object(spec_block_style_items(b))
}

pub fn json_block_style(b: &BlockStyle) -> (r: String)
    ensures
        r@ == spec_json_block_style(*b),
{
    let mut items: Vec<String> = Vec::new();
    items.push(member("\"bold\":", json_bool(b.bold)));
    items.push(member("\"italics\":", json_bool(b.italics)));
    items.push(member("\"underline\":", json_bool(b.underline)));
    items.push(member("\"strike\":", json_bool(b.strike)));
    if let Some(n) = b.size {
        items.push(member("\"size\":", json_int(n)));
    }
    proof {
        assert(views_of_strings(items@) =~= spec_block_style_items(*b));
    }
    json_object(&items)
}

/// The members of a numbering record: each field only when present.
pub open spec fn spec_numbering_items(nv: NumberingV) -> Seq<Seq<char>> {
    let s0 = Seq::<Seq<char>>::empty();
    let s1 = match nv.id {
        Option::Some(i) => s0.push("\"id\":"@ + spec_int_string(i)),
        Option::None => s0,
    };
    let s2 = match nv.indent_level {
        Option::Some(i) => s1.push("\"indentLevel\":"@ + spec_int_string(i)),
        Option::None => s1,
    };
    let s3 = match nv.format {
        Option::Some(f) => s2.push("\"format\":"@ + spec_json_string(f)),
        Option::None => s2,
    };
    match nv.level_text {
        Option::Some(t) => s3.push("\"levelText\":"@ + spec_json_string(t)),
        Option::None => s3,
    }
}

pub open spec fn spec_json_numbering(nv: NumberingV) -> Seq<char> {
    spec_json_object(spec_numbering_items(nv))
}

pub fn json_numbering(n: &MarkdownNumbering) -> (r: String)
    ensures
        r@ == spec_json_numbering(n@),
{
    let mut items: Vec<String> = Vec::new();
    if let Some(i) = n.id {
        items.push(member("\"id\":", json_int(i)));
    }
    if let Some(i) = n.indent_level {
        items.push(member("\"indentLevel\":", json_int(i)));
    }
    if let Some(f) = &n.format {
        items.push(member("\"format\":", json_string(f)));
    }
    if let Some(t) = &n.level_text {
        items.push(member("\"levelText\":", json_string(t)));
    }
    proof {
        assert(views_of_strings(items@) =~= spec_numbering_items(n@));
    }
    json_object(&items)
}

/// The members of a paragraph style: each field only when present.
pub open spec fn spec_paragraph_style_items(ps: ParagraphStyleV) -> Seq<Seq<char>> {
    let s0 = Seq::<Seq<char>>::empty();
    let s1 = match ps.style_id {
        Option::Some(id) => s0.push("\"styleId\":"@ + spec_json_string(id)),
        Option::None => s0,
    };
    let s2 = match ps.outline_lvl {
        Option::Some(l) => s1.push("\"outlineLvl\":"@ + spec_int_string(l)),
        Option::None => s1,
    };
    let s3 = match ps.numbering {
        Option::Some(nv) => s2.push("\"numbering\":"@ + spec_json_numbering(nv)),
        Option::None => s2,
    };
    let s4 = match ps.page_break_before {
        Option::Some(b) => s3.push("\"pageBreakBefore\":"@ + spec_json_bool(b)),
        Option::None => s3,
    };
    match ps.style {
        Option::Some(bs) => s4.push("\"style\":"@ + spec_json_block_style(bs)),
        Option::None => s4,
    }
}

pub open spec fn spec_json_paragraph_style(ps: ParagraphStyleV) -> Seq<char> {
    spec_json_object(spec_paragraph_style_items(ps))
}

pub fn json_paragraph_style(ps: &ParagraphStyle) -> (r: String)
    ensures
        r@ == spec_json_paragraph_style(ps@),
{
    let mut items: Vec<String> = Vec::new();
    if let Some(id) = &ps.style_id {
        items.push(member("\"styleId\":", json_string(id)));
    }
    if let Some(l) = ps.outline_lvl {
        items.push(member("\"outlineLvl\":", json_int(l)));
    }
    if let Some(nv) = &ps.numbering {
        items.push(member("\"numbering\":", json_numbering(nv)));
    }
    if let Some(b) = ps.page_break_before {
        items.push(member("\"pageBreakBefore\":", json_bool(b)));
    }
    if let Some(bs) = &ps.style {
        items.push(member("\"style\":", json_block_style(bs)));
    }
    proof {
        assert(views_of_strings(items@) =~= spec_paragraph_style_items(ps@));
    }
    json_object(&items)
}

/// The name a block kind serializes under.
pub open spec fn spec_text_type_name(t: TextType) -> Seq<char> {
    match t {
        TextType::Text => "Text"@,
        TextType::Image => "Image"@,
        TextType::Link => "Link"@,
        TextType::Code => "Code"@,
        TextType::Quote => "Quote"@,
        TextType::List => "List"@,
        TextType::Table => "Table"@,
        TextType::Header => "Header"@,
        TextType::HorizontalRule => "HorizontalRule"@,
        TextType::BlockQuote => "BlockQuote"@,
        TextType::CodeBlock => "CodeBlock"@,
        TextType::HeaderBlock => "HeaderBlock"@,
        TextType::BookmarkLink => "BookmarkLink"@,
    }
}

pub fn text_type_name(t: TextType) -> (r: String)
    ensures
        r@ == spec_text_type_name(t),
{
    match t {
        TextType::Text => String::from_str("Text"),
        TextType::Image => String::from_str("Image"),
        TextType::Link => String::from_str("Link"),
        TextType::Code => String::from_str("Code"),
        TextType::Quote => String::from_str("Quote"),
        TextType::List => String::from_str("List"),
        TextType::Table => String::from_str("Table"),
        TextType::Header => String::from_str("Header"),
        TextType::HorizontalRule => String::from_str("HorizontalRule"),
        TextType::BlockQuote => String::from_str("BlockQuote"),
        TextType::CodeBlock => String::from_str("CodeBlock"),
        TextType::HeaderBlock => String::from_str("HeaderBlock"),
        TextType::BookmarkLink => String::from_str("BookmarkLink"),
    }
}

/// The members of a text block: its kind, its style when present, and its
/// text.
pub open spec fn spec_text_block_items(b: TextBlockV) -> Seq<Seq<char>> {
    let s0 = seq!["\"textType\":"@ + spec_json_string(spec_text_type_name(b.text_type))];
    let s1 = match b.style {
        Option::Some(st) => s0.push("\"style\":"@ + spec_json_block_style(st)),
        Option::None => s0,
    };
    s1.push("\"text\":"@ + spec_json_string(b.text))
}

pub open spec fn spec_json_text_block(b: TextBlockV) -> Seq<char> {
    spec_json_object(spec_text_block_items(b))
}

pub fn json_text_block(b: &TextBlock) -> (r: String)
    ensures
        r@ == spec_json_text_block(b@),
{
    let mut items: Vec<String> = Vec::new();
    let name = text_type_name(b.text_type);
    items.push(member("\"textType\":", json_string(&name)));
    if let Some(st) = &b.style {
        items.push(member("\"style\":", json_block_style(st)));
    }
    items.push(member("\"text\":", json_string(&b.text)));
    proof {
        assert(views_of_strings(items@) =~= spec_text_block_items(b@));
    }
    json_object(&items)
}

/// The first `n` blocks of a paragraph, each rendered.
pub open spec fn spec_blocks_json(blocks: Seq<TextBlockV>, n: nat) -> Seq<Seq<char>>
    decreases n,
{
    if n == 0 {
        Seq::empty()
    } else {
        spec_blocks_json(blocks, (n - 1) as nat).push(spec_json_text_block(blocks[n - 1]))
    }
}

/// The members of a paragraph: its style when present, then its blocks.
pub open spec fn spec_paragraph_items(p: ParagraphV) -> Seq<Seq<char>> {
    let s0 = match p.style {
        Option::Some(ps) => seq!["\"style\":"@ + spec_json_paragraph_style(ps)],
        Option::None => Seq::<Seq<char>>::empty(),
    };
    s0.push("\"blocks\":"@ + spec_json_array(spec_blocks_json(p.blocks, p.blocks.len())))
}

pub open spec fn spec_json_paragraph(p: ParagraphV) -> Seq<char> {
    spec_json_object(spec_paragraph_items(p))
}

pub fn json_paragraph(p: &MarkdownParagraph) -> (r: String)
    ensures
        r@ == spec_json_paragraph(p@),
{
    let mut items: Vec<String> = Vec::new();
    if let Some(ps) = &p.style {
        items.push(member("\"style\":", json_paragraph_style(ps)));
    }
    let mut blocks: Vec<String> = Vec::new();
    let n = p.blocks.len();
    let mut i: usize = 0;
    proof {
        assert(views_of_strings(blocks@) =~= spec_blocks_json(p@.blocks, 0));
    }
    while i < n
        invariant
            i <= n,
            n == p.blocks@.len(),
            views_of_strings(blocks@) == spec_blocks_json(p@.blocks, i as nat),
        decreases n - i,
    {
        proof {
            assert(p@.blocks[i as int] == p.blocks@[i as int]@);
        }
        blocks.push(json_text_block(&p.blocks[i]));
        proof {
            assert(views_of_strings(blocks@) =~= spec_blocks_json(p@.blocks, (i + 1) as nat));
        }
        i = i + 1;
    }
    items.push(member("\"blocks\":", json_array(&blocks)));
    proof {
        assert(views_of_strings(items@) =~= spec_paragraph_items(p@));
    }
    json_object(&items)
}

/// The first `n` paragraphs of one cell, each rendered.
pub open spec fn spec_cell_json(cell: Seq<ParagraphV>, n: nat) -> Seq<Seq<char>>
    decreases n,
{
    if n == 0 {
        Seq::empty()
    } else {
        spec_cell_json(cell, (n - 1) as nat).push(spec_json_paragraph(cell[n - 1]))
    }
}

/// The first `n` cells of one row, each an array of paragraphs.
pub open spec fn spec_cells_json(cells: Seq<Seq<ParagraphV>>, n: nat) -> Seq<Seq<char>>
    decreases n,
{
    if n == 0 {
        Seq::empty()
    } else {
        spec_cells_json(cells, (n - 1) as nat).push(
            spec_json_array(spec_cell_json(cells[n - 1], cells[n - 1].len())),
        )
    }
}

/// The members of a table row: its header flag and its cells.
pub open spec fn spec_row_items(r: TableRowV) -> Seq<Seq<char>> {
    seq![
        "\"isHeader\":"@ + spec_json_bool(r.is_header),
        "\"cells\":"@ + spec_json_array(spec_cells_json(r.cells, r.cells.len())),
    ]
}

pub open spec fn spec_json_row(r: TableRowV) -> Seq<char> {
    spec_json_object(spec_row_items(r))
}

pub fn json_row(row: &MarkdownTableRow) -> (r: String)
    ensures
        r@ == spec_json_row(row@),
{
    let mut items: Vec<String> = Vec::new();
    items.push(member("\"isHeader\":", json_bool(row.is_header)));
    let mut cells: Vec<String> = Vec::new();
    let n = row.cells.len();
    let mut i: usize = 0;
    proof {
        assert(views_of_strings(cells@) =~= spec_cells_json(row@.cells, 0));
    }
    while i < n
        invariant
            i <= n,
            n == row.cells@.len(),
            views_of_strings(cells@) == spec_cells_json(row@.cells, i as nat),
        decreases n - i,
    {
        let cell = &row.cells[i];
        let mut paragraphs: Vec<String> = Vec::new();
        let m = cell.len();
        let mut j: usize = 0;
        proof {
            assert(row@.cells[i as int] == crate::document::views_of_cell(cell@));
            assert(views_of_strings(paragraphs@) =~= spec_cell_json(row@.cells[i as int], 0));
        }
        while j < m
            invariant
                j <= m,
                m == cell@.len(),
                row@.cells[i as int] == crate::document::views_of_cell(cell@),
                views_of_strings(paragraphs@) == spec_cell_json(
                    row@.cells[i as int],
                    j as nat,
                ),
            decreases m - j,
        {
            proof {
                assert(row@.cells[i as int][j as int] == cell@[j as int]@);
            }
            paragraphs.push(json_paragraph(&cell[j]));
            proof {
                assert(views_of_strings(paragraphs@) =~= spec_cell_json(
                    row@.cells[i as int],
                    (j + 1) as nat,
                ));
            }
            j = j + 1;
        }
        cells.push(json_array(&paragraphs));
        proof {
            assert(views_of_strings(cells@) =~= spec_cells_json(row@.cells, (i + 1) as nat));
        }
        i = i + 1;
    }
    items.push(member("\"cells\":", json_array(&cells)));
    proof {
        assert(views_of_strings(items@) =~= spec_row_items(row@));
    }
    json_object(&items)
}

/// The first `n` rows of one table, each rendered.
pub open spec fn spec_rows_json(rows: Seq<TableRowV>, n: nat) -> Seq<Seq<char>>
    decreases n,
{
    if n == 0 {
        Seq::empty()
    } else {
        spec_rows_json(rows, (n - 1) as nat).push(spec_json_row(rows[n - 1]))
    }
}

/// One content item: an object with a single `paragraph` or `table` member.
pub open spec fn spec_json_content(c: ContentV) -> Seq<char> {
    match c {
        ContentV::Paragraph(p) => spec_json_object(
            seq!["\"paragraph\":"@ + spec_json_paragraph(p)],
        ),
        ContentV::Table(rows) => spec_json_object(
            seq!["\"table\":"@ + spec_json_array(spec_rows_json(rows, rows.len()))],
        ),
    }
}

pub fn json_content(c: &MarkdownContent) -> (r: String)
    ensures
        r@ == spec_json_content(c@),
{
    let mut items: Vec<String> = Vec::new();
    match c {
        MarkdownContent::Paragraph(p) => {
            items.push(member("\"paragraph\":", json_paragraph(p)));
        },
        MarkdownContent::Table(table) => {
            let mut rows: Vec<String> = Vec::new();
            let n = table.len();
            let mut i: usize = 0;
            proof {
                assert(views_of_strings(rows@) =~= spec_rows_json(
                    crate::document::views_of_rows(table@),
                    0,
                ));
            }
            while i < n
                invariant
                    i <= n,
                    n == table@.len(),
                    views_of_strings(rows@) == spec_rows_json(
                        crate::document::views_of_rows(table@),
                        i as nat,
                    ),
                decreases n - i,
            {
                proof {
                    assert(crate::document::views_of_rows(table@)[i as int]
                        == table@[i as int]@);
                }
                rows.push(json_row(&table[i]));
                proof {
                    assert(views_of_strings(rows@) =~= spec_rows_json(
                        crate::document::views_of_rows(table@),
                        (i + 1) as nat,
                    ));
                }
                i = i + 1;
            }
            items.push(member("\"table\":", json_array(&rows)));
        },
    }
    proof {
        assert(views_of_strings(items@) =~= match c@ {
            ContentV::Paragraph(p) => seq!["\"paragraph\":"@ + spec_json_paragraph(p)],
            ContentV::Table(rows) => seq![
                "\"table\":"@ + spec_json_array(spec_rows_json(rows, rows.len())),
            ],
        });
    }
    json_object(&items)
}

/// The first `n` content items, each rendered.
pub open spec fn spec_content_json(content: Seq<ContentV>, n: nat) -> Seq<Seq<char>>
    decreases n,
{
    if n == 0 {
        Seq::empty()
    } else {
        spec_content_json(content, (n - 1) as nat).push(spec_json_content(content[n - 1]))
    }
}

/// The first `n` named-style members: each style keyed by its id.
pub open spec fn spec_styles_json(styles: Seq<crate::style::StyleEntryV>, n: nat) -> Seq<
    Seq<char>,
>
    decreases n,
{
    if n == 0 {
        Seq::empty()
    } else {
        spec_styles_json(styles, (n - 1) as nat).push(
            spec_json_string(styles[n - 1].id) + ":"@ + spec_json_paragraph_style(
                styles[n - 1].style,
            ),
        )
    }
}

/// The key a numbering definition serializes under: its list id's decimal
/// text, or nothing when the definition carries no id.
pub open spec fn spec_numbering_key(id: Option<int>) -> Seq<char> {
    match id {
        Option::Some(i) => spec_int_string(i),
        Option::None => Seq::empty(),
    }
}

/// The first `n` numbering members: each definition keyed by its list id.
pub open spec fn spec_numberings_json(defs: Seq<NumberingV>, n: nat) -> Seq<Seq<char>>
    decreases n,
{
    if n == 0 {
        Seq::empty()
    } else {
        spec_numberings_json(defs, (n - 1) as nat).push(
            "\""@ + spec_numbering_key(defs[n - 1].id) + "\":"@ + spec_json_numbering(
                defs[n - 1],
            ),
        )
    }
}

/// The first `n` image members: each image's bytes as a hexadecimal string,
/// keyed by relationship id.
pub open spec fn spec_images_json(images: Seq<crate::document::ImageEntryV>, n: nat) -> Seq<
    Seq<char>,
>
    decreases n,
{
    if n == 0 {
        Seq::empty()
    } else {
        spec_images_json(images, (n - 1) as nat).push(
            spec_json_string(images[n - 1].id) + ":\""@ + spec_hex_bytes(
                images[n - 1].data,
                images[n - 1].data.len(),
            ) + "\""@,
        )
    }
}

/// The members of a document: the title when present, then content, named
/// styles, numbering definitions, and images.
pub open spec fn spec_document_items(d: crate::document::DocumentV) -> Seq<Seq<char>> {
    let s0 = match d.title {
        Option::Some(t) => seq!["\"title\":"@ + spec_json_string(t)],
        Option::None => Seq::<Seq<char>>::empty(),
    };
    s0.push("\"content\":"@ + spec_json_array(spec_content_json(d.content, d.content.len())))
        .push("\"styles\":"@ + spec_json_object(spec_styles_json(d.styles, d.styles.len())))
        .push(
        "\"numberings\":"@ + spec_json_object(
            spec_numberings_json(d.numberings, d.numberings.len()),
        ),
    ).push("\"images\":"@ + spec_json_object(spec_images_json(d.images, d.images.len())))
}

/// The JSON text of a whole document.
pub open spec fn spec_json_document(d: crate::document::DocumentV) -> Seq<char> {
    spec_json_object(spec_document_items(d))
}

impl crate::document::MarkdownDocument {
    /// Render the document as JSON text: lower-camel-case member names,
    /// absent optional values omitted, image bytes hex-encoded. The flag
    /// chooses no layout yet: both modes emit the same compact text, which
    /// every JSON reader accepts.
    pub fn to_json(&self, _pretty: bool) -> (r: Option<String>)
        ensures
            match r {
                Option::Some(s) => s@ == spec_json_document(self@),
                Option::None => false,
            },
    {
        let mut items: Vec<String> = Vec::new();
        if let Some(t) = &self.title {
            items.push(member("\"title\":", json_string(t)));
        }

        let mut content: Vec<String> = Vec::new();
        let n = self.content.len();
        let mut i: usize = 0;
        proof {
            assert(views_of_strings(content@) =~= spec_content_json(self@.content, 0));
        }
        while i < n
            invariant
                i <= n,
                n == self.content@.len(),
                views_of_strings(content@) == spec_content_json(self@.content, i as nat),
            decreases n - i,
        {
            proof {
                assert(self@.content[i as int] == self.content@[i as int]@);
            }
            content.push(json_content(&self.content[i]));
            proof {
                assert(views_of_strings(content@) =~= spec_content_json(
                    self@.content,
                    (i + 1) as nat,
                ));
            }
            i = i + 1;
        }
        items.push(member("\"content\":", json_array(&content)));

        let mut styles: Vec<String> = Vec::new();
        let n = self.styles.len();
        let mut i: usize = 0;
        proof {
            assert(views_of_strings(styles@) =~= spec_styles_json(self@.styles, 0));
        }
        while i < n
            invariant
                i <= n,
                n == self.styles@.len(),
                views_of_strings(styles@) == spec_styles_json(self@.styles, i as nat),
            decreases n - i,
        {
            proof {
                assert(self@.styles[i as int] == self.styles@[i as int]@);
            }
            let e = &self.styles[i];
            let mut m = json_string(&e.id);
            m.append(":");
            let sj = json_paragraph_style(&e.style);
            m.append(sj.as_str());
            styles.push(m);
            proof {
                assert(views_of_strings(styles@) =~= spec_styles_json(
                    self@.styles,
                    (i + 1) as nat,
                ));
            }
            i = i + 1;
        }
        items.push(member("\"styles\":", json_object(&styles)));

        let mut numberings: Vec<String> = Vec::new();
        let n = self.numberings.len();
        let mut i: usize = 0;
        proof {
            assert(views_of_strings(numberings@) =~= spec_numberings_json(self@.numberings, 0));
        }
        while i < n
            invariant
                i <= n,
                n == self.numberings@.len(),
                views_of_strings(numberings@) == spec_numberings_json(
                    self@.numberings,
                    i as nat,
                ),
            decreases n - i,
        {
            proof {
                assert(self@.numberings[i as int] == self.numberings@[i as int]@);
            }
            let d = &self.numberings[i];
            let mut m = String::from_str("\"");
            if let Some(id) = d.id {
                let ids = isize_to_string(id);
                m.append(ids.as_str());
            }
            m.append("\":");
            let dj = json_numbering(d);
            m.append(dj.as_str());
            numberings.push(m);
            proof {
                assert(views_of_strings(numberings@) =~= spec_numberings_json(
                    self@.numberings,
                    (i + 1) as nat,
                ));
            }
            i = i + 1;
        }
        items.push(member("\"numberings\":", json_object(&numberings)));

        let mut images: Vec<String> = Vec::new();
        let n = self.images.len();
        let mut i: usize = 0;
        proof {
            assert(views_of_strings(images@) =~= spec_images_json(self@.images, 0));
        }
        while i < n
            invariant
                i <= n,
                n == self.images@.len(),
                views_of_strings(images@) == spec_images_json(self@.images, i as nat),
            decreases n - i,
        {
            proof {
                assert(self@.images[i as int] == self.images@[i as int]@);
            }
            let e = &self.images[i];
            let mut m = json_string(&e.id);
            m.append(":\"");
            let h = hex_bytes(&e.data);
            m.append(h.as_str());
            m.append("\"");
            images.push(m);
            proof {
                assert(views_of_strings(images@) =~= spec_images_json(
                    self@.images,
                    (i + 1) as nat,
                ));
            }
            i = i + 1;
        }
        items.push(member("\"images\":", json_object(&images)));

        proof {
            assert(views_of_strings(items@) =~= spec_document_items(self@));
        }
        Some(json_object(&items))
    }
}

} // verus!
