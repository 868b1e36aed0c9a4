//! Character- and paragraph-level formatting, and the cascade rules that
//! merge local formatting with named-style defaults.

use vstd::prelude::*;
use vstd::string::*;
use crate::raw::{RawParagraphProperty, RawRunProperty};

verus! {

/// Directly observed character formatting of a run of text.
///
/// `size` is in half-points, so a size of 19 means 9.5pt.
#[derive(Debug, Clone, Copy)]
pub struct BlockStyle {
    pub bold: bool,
    pub italics: bool,
    pub underline: bool,
    pub strike: bool,
    pub size: Option<isize>,
}

/// The formatting with nothing set.
pub open spec fn spec_empty_block_style() -> BlockStyle {
    BlockStyle { bold: false, italics: false, underline: false, strike: false, size: Option::None }
}

/// The block-level merge: the paragraph's boolean flags replace the run's
/// unconditionally, while the paragraph's size replaces the run's only when
/// the paragraph specifies one.
pub open spec fn spec_combine_block(run: BlockStyle, para: BlockStyle) -> BlockStyle {
    BlockStyle {
        bold: para.bold,
        italics: para.italics,
        underline: para.underline,
        strike: para.strike,
        size: match para.size {
            Option::Some(_) => para.size,
            Option::None => run.size,
        },
    }
}

impl BlockStyle {
    pub fn new() -> (r: Self)
        ensures
            r == spec_empty_block_style(),
    {
        BlockStyle { bold: false, italics: false, underline: false, strike: false, size: None }
    }

    /// Replace this style by the merge of it with `other`, `other`'s boolean
    /// flags winning outright and its size winning only when present.
    pub fn combine_with(&mut self, other: &BlockStyle)
        ensures
            *final(self) == spec_combine_block(*old(self), *other),
    {
        self.bold = other.bold;
        self.italics = other.italics;
        self.underline = other.underline;
        self.strike = other.strike;
        if let Some(size) = other.size {
            self.size = Some(size);
        }
    }
}

/// Equality of two block styles, field by field.
pub fn block_style_eq(a: &BlockStyle, b: &BlockStyle) -> (r: bool)
    ensures
        r == (*a == *b),
{
    let size_eq = match (a.size, b.size) {
        (Some(x), Some(y)) => x == y,
        (None, None) => true,
        _ => false,
    };
    size_eq && a.bold == b.bold && a.italics == b.italics && a.underline == b.underline
        && a.strike == b.strike
}

pub open spec fn view_opt_string(o: Option<String>) -> Option<Seq<char>> {
    match o {
        Option::Some(s) => Option::Some(s@),
        Option::None => Option::None,
    }
}

pub open spec fn view_opt_isize(o: Option<isize>) -> Option<int> {
    match o {
        Option::Some(i) => Option::Some(i as int),
        Option::None => Option::None,
    }
}

pub fn clone_opt_string(o: &Option<String>) -> (r: Option<String>)
    ensures
        view_opt_string(r) == view_opt_string(*o),
{
    match o {
        Some(s) => Some(s.clone()),
        None => None,
    }
}

/// A numbering definition, or a paragraph's reference to one.
///
/// On a paragraph only `id` and `indent_level` are populated; `format` and
/// `level_text` live in the document-level numbering table and are looked up
/// at render time.
#[derive(Debug)]
pub struct MarkdownNumbering {
    pub id: Option<isize>,
    pub indent_level: Option<isize>,
    pub format: Option<String>,
    pub level_text: Option<String>,
}

/// The mathematical value of a `MarkdownNumbering`.
pub struct NumberingV {
    pub id: Option<int>,
    pub indent_level: Option<int>,
    pub format: Option<Seq<char>>,
    pub level_text: Option<Seq<char>>,
}

impl View for MarkdownNumbering {
    type V = NumberingV;

    open spec fn view(&self) -> NumberingV {
        NumberingV {
            id: view_opt_isize(self.id),
            indent_level: view_opt_isize(self.indent_level),
            format: view_opt_string(self.format),
            level_text: view_opt_string(self.level_text),
        }
    }
}

impl Clone for MarkdownNumbering {
    fn clone(&self) -> (r: Self)
        ensures
            r@ == self@,
    {
        MarkdownNumbering {
            id: self.id,
            indent_level: self.indent_level,
            format: clone_opt_string(&self.format),
            level_text: clone_opt_string(&self.level_text),
        }
    }
}

/// A paragraph's local formatting before inheriting from its named style.
#[derive(Debug)]
pub struct ParagraphStyle {
    pub style_id: Option<String>,
    pub outline_lvl: Option<isize>,
    pub numbering: Option<MarkdownNumbering>,
    pub page_break_before: Option<bool>,
    pub style: Option<BlockStyle>,
}

/// The mathematical value of a `ParagraphStyle`.
pub struct ParagraphStyleV {
    pub style_id: Option<Seq<char>>,
    pub outline_lvl: Option<int>,
    pub numbering: Option<NumberingV>,
    pub page_break_before: Option<bool>,
    pub style: Option<BlockStyle>,
}

impl View for ParagraphStyle {
    type V = ParagraphStyleV;

    open spec fn view(&self) -> ParagraphStyleV {
        ParagraphStyleV {
            style_id: view_opt_string(self.style_id),
            outline_lvl: view_opt_isize(self.outline_lvl),
            numbering: match self.numbering {
                Option::Some(n) => Option::Some(n@),
                Option::None => Option::None,
            },
            page_break_before: self.page_break_before,
            style: self.style,
        }
    }
}

/// The paragraph style with nothing set.
pub open spec fn spec_empty_paragraph_style() -> ParagraphStyleV {
    ParagraphStyleV {
        style_id: Option::None,
        outline_lvl: Option::None,
        numbering: Option::None,
        page_break_before: Option::None,
        style: Option::None,
    }
}

/// The paragraph-level merge: each local value wins when present, and is
/// inherited from `named` otherwise. The run-default block styles merge by
/// the block-level rule when both are present.
pub open spec fn spec_combine_paragraph(local: ParagraphStyleV, named: ParagraphStyleV) -> ParagraphStyleV {
    ParagraphStyleV {
        style_id: match local.style_id {
            Option::Some(_) => local.style_id,
            Option::None => named.style_id,
        },
        outline_lvl: match local.outline_lvl {
            Option::Some(_) => local.outline_lvl,
            Option::None => named.outline_lvl,
        },
        numbering: match local.numbering {
            Option::Some(_) => local.numbering,
            Option::None => named.numbering,
        },
        page_break_before: match local.page_break_before {
            Option::Some(_) => local.page_break_before,
            Option::None => named.page_break_before,
        },
        style: match (local.style, named.style) {
            (Option::Some(a), Option::Some(b)) => Option::Some(spec_combine_block(a, b)),
            (Option::Some(a), Option::None) => Option::Some(a),
            (Option::None, b) => b,
        },
    }
}

impl ParagraphStyle {
    pub fn new() -> (r: Self)
        ensures
            r@ == spec_empty_paragraph_style(),
    {
        ParagraphStyle {
            style_id: None,
            outline_lvl: None,
            numbering: None,
            page_break_before: None,
            style: None,
        }
    }

    /// Inherit from `other` every value that is locally absent; merge the
    /// run-default block styles by the block-level rule when both are set.
    pub fn combine_with(&mut self, other: &ParagraphStyle)
        ensures
            final(self)@ == spec_combine_paragraph(old(self)@, other@),
    {
        if self.style_id.is_none() {
            self.style_id = clone_opt_string(&other.style_id);
        }
        if self.outline_lvl.is_none() {
            self.outline_lvl = other.outline_lvl;
        }
        if self.page_break_before.is_none() {
            self.page_break_before = other.page_break_before;
        }
        if self.numbering.is_none() {
            self.numbering = match &other.numbering {
                Some(n) => Some(n.clone()),
                None => None,
            };
        }
        match (&mut self.style, &other.style) {
            (Some(style), Some(other_style)) => {
                style.combine_with(other_style);
            },
            (Some(_), None) => {},
            (None, other_style) => {
                self.style = *other_style;
            },
        }
    }
}

pub open spec fn view_opt_paragraph_style(o: Option<ParagraphStyle>) -> Option<ParagraphStyleV> {
    match o {
        Option::Some(s) => Option::Some(s@),
        Option::None => Option::None,
    }
}

/// One entry of the document's named-style table.
#[derive(Debug)]
pub struct StyleEntry {
    pub id: String,
    pub style: ParagraphStyle,
}

/// The mathematical value of a `StyleEntry`.
pub struct StyleEntryV {
    pub id: Seq<char>,
    pub style: ParagraphStyleV,
}

impl View for StyleEntry {
    type V = StyleEntryV;

    open spec fn view(&self) -> StyleEntryV {
        StyleEntryV { id: self.id@, style: self.style@ }
    }
}

/// The named-style table as a sequence of mathematical entries.
pub open spec fn views_of_styles(styles: Seq<StyleEntry>) -> Seq<StyleEntryV> {
    styles.map_values(|e: StyleEntry| e@)
}

/// The style recorded under `id`: the first entry carrying it, if any.
pub open spec fn spec_style_lookup(styles: Seq<StyleEntryV>, id: Seq<char>) -> Option<
    ParagraphStyleV,
>
    decreases styles.len(),
{
    if styles.len() == 0 {
        Option::None
    } else if styles[0].id == id {
        Option::Some(styles[0].style)
    } else {
        spec_style_lookup(styles.skip(1), id)
    }
}

/// Resolve a style id in the named-style table.
pub fn style_lookup(styles: &Vec<StyleEntry>, id: &String) -> (r: Option<ParagraphStyle>)
    ensures
        view_opt_paragraph_style(r) == spec_style_lookup(views_of_styles(styles@), id@),
{
    let ghost vs = views_of_styles(styles@);
    let mut i: usize = 0;
    proof {
        assert(vs.skip(0) =~= vs);
    }
    while i < styles.len()
        invariant
            i <= styles@.len(),
            vs == views_of_styles(styles@),
            spec_style_lookup(vs, id@) == spec_style_lookup(vs.skip(i as int), id@),
        decreases styles@.len() - i,
    {
        proof {
            assert(vs.skip(i as int)[0] == vs[i as int]);
            assert(vs.skip(i as int).skip(1) =~= vs.skip(i as int + 1));
        }
        if styles[i].id.eq(id) {
            return Some(styles[i].style.clone());
        }
        i = i + 1;
    }
    proof {
        assert(vs.skip(i as int).len() == 0);
    }
    None
}

/// The effective style of a paragraph: its local style, or the empty one
/// when absent, inheriting from the named style its id resolves to.
pub open spec fn spec_effective_paragraph_style(
    style: Option<ParagraphStyleV>,
    styles: Seq<StyleEntryV>,
) -> ParagraphStyleV {
    let base = match style {
        Option::Some(s) => s,
        Option::None => spec_empty_paragraph_style(),
    };
    match base.style_id {
        Option::Some(id) => match spec_style_lookup(styles, id) {
            Option::Some(named) => spec_combine_paragraph(base, named),
            Option::None => base,
        },
        Option::None => base,
    }
}

/// Compute a paragraph's effective style from its local one and the
/// named-style table.
pub fn effective_paragraph_style(style: &Option<ParagraphStyle>, styles: &Vec<StyleEntry>) -> (r:
    ParagraphStyle)
    ensures
        r@ == spec_effective_paragraph_style(
            match *style {
                Option::Some(ref s) => Option::Some(s@),
                Option::None => Option::None,
            },
            views_of_styles(styles@),
        ),
{
    let mut st = match style {
        Some(s) => s.clone(),
        None => ParagraphStyle::new(),
    };
    let named = match &st.style_id {
        Some(id) => style_lookup(styles, id),
        None => None,
    };
    if let Some(named) = named {
        st.combine_with(&named);
    }
    st
}

/// One run-property record folded into an accumulated block style: each
/// present toggle turns its flag on (italics by an italics or an emphasis
/// marker, strike by a single- or double-strike marker), and a declared size
/// replaces the accumulated one.
pub open spec fn spec_apply_run_property(bs: BlockStyle, p: RawRunProperty) -> BlockStyle {
    BlockStyle {
        bold: bs.bold || p.bold,
        underline: bs.underline || p.underline,
        italics: bs.italics || p.italics || p.emphasis,
        strike: bs.strike || p.strike || p.dstrike,
        size: match p.size {
            Option::Some(_) => p.size,
            Option::None => bs.size,
        },
    }
}

/// The first `n` run-property records folded over the empty block style.
pub open spec fn spec_fold_run_properties(props: Seq<RawRunProperty>, n: nat) -> BlockStyle
    decreases n,
{
    if n == 0 {
        spec_empty_block_style()
    } else {
        spec_apply_run_property(spec_fold_run_properties(props, (n - 1) as nat), props[n - 1])
    }
}

/// The block style a single run-property record describes.
pub open spec fn spec_block_style_of_run_property(p: RawRunProperty) -> BlockStyle {
    spec_apply_run_property(spec_empty_block_style(), p)
}

/// Fold one run-property record into `bs`.
pub fn apply_run_property(bs: &mut BlockStyle, p: &RawRunProperty)
    ensures
        *final(bs) == spec_apply_run_property(*old(bs), *p),
{
    if let Some(size) = p.size {
        bs.size = Some(size);
    }
    if p.bold {
        bs.bold = true;
    }
    if p.underline {
        bs.underline = true;
    }
    if p.italics || p.emphasis {
        bs.italics = true;
    }
    if p.strike || p.dstrike {
        bs.strike = true;
    }
}

/// The paragraph style a raw paragraph-property record describes: its
/// declared values carried over, and its run-property records folded into
/// one run-default block style when there is at least one.
pub open spec fn spec_style_from_property(p: RawParagraphProperty) -> ParagraphStyleV {
    ParagraphStyleV {
        style_id: view_opt_string(p.style_id),
        outline_lvl: view_opt_isize(p.outline_lvl),
        page_break_before: p.page_break_before,
        numbering: match p.numbering {
            Option::Some(nr) => Option::Some(
                NumberingV {
                    id: view_opt_isize(nr.id),
                    indent_level: view_opt_isize(nr.level),
                    format: Option::None,
                    level_text: Option::None,
                },
            ),
            Option::None => Option::None,
        },
        style: if p.run_properties@.len() == 0 {
            Option::None
        } else {
            Option::Some(spec_fold_run_properties(p.run_properties@, p.run_properties@.len()))
        },
    }
}

impl ParagraphStyle {
    /// Build the paragraph style a raw property record describes.
    pub fn from_property(p: &RawParagraphProperty) -> (r: ParagraphStyle)
        ensures
            r@ == spec_style_from_property(*p),
    {
        let mut paragraph_style = ParagraphStyle::new();
        paragraph_style.style_id = clone_opt_string(&p.style_id);
        paragraph_style.outline_lvl = p.outline_lvl;
        paragraph_style.page_break_before = p.page_break_before;
        if let Some(nr) = p.numbering {
            paragraph_style.numbering = Some(
                MarkdownNumbering { id: nr.id, indent_level: nr.level, format: None, level_text: None },
            );
        }
        if p.run_properties.len() > 0 {
            let mut block_style = BlockStyle::new();
            let mut i: usize = 0;
            while i < p.run_properties.len()
                invariant
                    i <= p.run_properties@.len(),
                    block_style == spec_fold_run_properties(p.run_properties@, i as nat),
                decreases p.run_properties@.len() - i,
            {
                apply_run_property(&mut block_style, &p.run_properties[i]);
                i = i + 1;
            }
            paragraph_style.style = Some(block_style);
        }
        paragraph_style
    }
}

impl Clone for ParagraphStyle {
    fn clone(&self) -> (r: Self)
        ensures
            r@ == self@,
    {
        ParagraphStyle {
            style_id: clone_opt_string(&self.style_id),
            outline_lvl: self.outline_lvl,
            numbering: match &self.numbering {
                Some(n) => Some(n.clone()),
                None => None,
            },
            page_break_before: self.page_break_before,
            style: self.style,
        }
    }
}

} // verus!
