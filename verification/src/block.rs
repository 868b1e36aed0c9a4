//! The atomic renderable unit inside a paragraph, and its Markdown markup.

use vstd::prelude::*;
use vstd::string::*;
use crate::style::{
    BlockStyle, ParagraphStyle, ParagraphStyleV, spec_combine_block, spec_empty_block_style,
};
use crate::text::{enclose, spec_enclose};

verus! {

/// The kind of a text block.
#[derive(Debug, Clone, Copy, PartialEq, Eq, Structural)]
pub enum TextType {
    Text,
    Image,
    Link,
    Code,
    Quote,
    List,
    Table,
    Header,
    HorizontalRule,
    BlockQuote,
    CodeBlock,
    HeaderBlock,
    BookmarkLink,
}

/// The atomic renderable unit inside a paragraph.
#[derive(Debug)]
pub struct TextBlock {
    pub text_type: TextType,
    pub style: Option<BlockStyle>,
    pub text: String,
}

/// The mathematical value of a `TextBlock`.
pub struct TextBlockV {
    pub text_type: TextType,
    pub style: Option<BlockStyle>,
    pub text: Seq<char>,
}

impl View for TextBlock {
    type V = TextBlockV;

    open spec fn view(&self) -> TextBlockV {
        TextBlockV { text_type: self.text_type, style: self.style, text: self.text@ }
    }
}

/// The style a run's text is rendered with: the run's own formatting, or the
/// empty one when absent, merged with the paragraph's run default by the
/// block-level rule.
pub open spec fn spec_effective_block_style(
    run: Option<BlockStyle>,
    para: Option<BlockStyle>,
) -> BlockStyle {
    let base = match run {
        Option::Some(s) => s,
        Option::None => spec_empty_block_style(),
    };
    match para {
        Option::Some(p) => spec_combine_block(base, p),
        Option::None => base,
    }
}

/// `text` wrapped by the markers of each set flag, applied bold first, then
/// italics, then underline, then strike, each wrapping the prior result.
pub open spec fn spec_wrap_markup(text: Seq<char>, style: BlockStyle) -> Seq<char> {
    let t1 = if style.bold {
        spec_enclose(text, "**"@)
    } else {
        text
    };
    let t2 = if style.italics {
        spec_enclose(t1, "*"@)
    } else {
        t1
    };
    let t3 = if style.underline {
        spec_enclose(t2, "__"@)
    } else {
        t2
    };
    if style.strike {
        spec_enclose(t3, "~~"@)
    } else {
        t3
    }
}

/// The Markdown text of one block rendered under a paragraph style.
pub open spec fn spec_block_markdown(b: TextBlockV, paragraph_style: ParagraphStyleV) -> Seq<char> {
    spec_wrap_markup(b.text, spec_effective_block_style(b.style, paragraph_style.style))
}

impl TextBlock {
    pub fn new(text: String, style: Option<BlockStyle>, text_type: TextType) -> (r: Self)
        ensures
            r@ == (TextBlockV { text_type, style, text: text@ }),
    {
        TextBlock { style, text, text_type }
    }

    /// Render this block's text with the emphasis markers of its effective
    /// style.
    pub fn to_markdown(&self, paragraph_style: &ParagraphStyle) -> (r: String)
        ensures
            r@ == spec_block_markdown(self@, paragraph_style@),
    {
        let mut markdown = self.text.clone();

        let mut style = if let Some(s) = self.style {
            s
        } else {
            BlockStyle::new()
        };

        if let Some(block_style) = &paragraph_style.style {
            style.combine_with(block_style);
        }

        if style.bold {
            markdown = enclose(&markdown, "**");
        }
        if style.italics {
            markdown = enclose(&markdown, "*");
        }
        if style.underline {
            markdown = enclose(&markdown, "__");
        }
        if style.strike {
            markdown = enclose(&markdown, "~~");
        }
        markdown
    }
}

} // verus!
