//! The block-level shape of a document, as far as the extraction reads it.

use vstd::prelude::*;

verus! {

/// A child of a heading.
#[derive(Clone, Debug, PartialEq, Eq)]
pub enum Inline {
    /// A run of plain text.
    Text(String),
    /// Anything else: emphasis, a link, an image, inline code.
    Other,
}

/// A heading: its level, what it contains, and the line on which it starts.
#[derive(Clone, Debug, PartialEq, Eq)]
pub struct Heading {
    /// The level, 1 for the outermost.
    pub depth: u8,
    /// What the heading contains, in order.
    pub children: Vec<Inline>,
    /// The 1-based line of the source on which the heading starts.
    pub line: usize,
}

/// A fenced or indented block of raw text.
#[derive(Clone, Debug, PartialEq, Eq)]
pub struct Code {
    /// The tag that follows the language on the opening fence, if any.
    pub meta: Option<String>,
    /// The block's text, without its fences.
    pub value: String,
    /// The 1-based line of the source on which the block starts.
    pub line: usize,
}

/// A top-level node of a document.
#[derive(Clone, Debug, PartialEq, Eq)]
pub enum Block {
    Heading(Heading),
    Code(Code),
    /// A node of any other kind; the extraction passes over it.
    Other,
}

/// An [`Inline`], with text as a sequence of characters.
pub enum InlineView {
    Text(Seq<char>),
    Other,
}

/// A [`Heading`], with text as sequences of characters.
pub struct HeadingView {
    pub depth: nat,
    pub children: Seq<InlineView>,
    pub line: nat,
}

/// A [`Code`], with text as sequences of characters.
pub struct CodeView {
    pub meta: Option<Seq<char>>,
    pub value: Seq<char>,
    pub line: nat,
}

/// A [`Block`], with text as sequences of characters.
pub enum BlockView {
    Heading(HeadingView),
    Code(CodeView),
    Other,
}

impl DeepView for Inline {
    type V = InlineView;

    open spec fn deep_view(&self) -> InlineView {
        match self {
            Inline::Text(text) => InlineView::Text(text@),
            Inline::Other => InlineView::Other,
        }
    }
}

impl DeepView for Heading {
    type V = HeadingView;

    open spec fn deep_view(&self) -> HeadingView {
        HeadingView {
            depth: self.depth as nat,
            children: self.children.deep_view(),
            line: self.line as nat,
        }
    }
}

impl DeepView for Code {
    type V = CodeView;

    open spec fn deep_view(&self) -> CodeView {
        CodeView {
            meta: match self.meta {
                Some(tag) => Some(tag@),
                None => None,
            },
            value: self.value@,
            line: self.line as nat,
        }
    }
}

impl DeepView for Block {
    type V = BlockView;

    open spec fn deep_view(&self) -> BlockView {
        match self {
            Block::Heading(heading) => BlockView::Heading(heading.deep_view()),
            Block::Code(code) => BlockView::Code(code.deep_view()),
            Block::Other => BlockView::Other,
        }
    }
}

impl HeadingView {
    /// The heading's label: the text of its only child, where that child is
    /// plain text. A heading of any other shape has none.
    pub open spec fn label(self) -> Option<Seq<char>> {
        if self.children.len() == 1 {
            match self.children[0] {
                InlineView::Text(text) => Some(text),
                InlineView::Other => None,
            }
        } else {
            None
        }
    }
}

impl Code {
    /// Whether the block carries configuration: its tag is exactly `options`.
    pub fn is_configuration(&self) -> (answer: bool)
        ensures
            answer == self.deep_view().is_configuration(),
    {
        match &self.meta {
            Some(tag) => *tag == "options".to_owned(),
            None => false,
        }
    }
}

impl CodeView {
    /// Whether the block carries configuration: its tag is exactly `options`.
    pub open spec fn is_configuration(self) -> bool {
        self.meta == Some("options"@)
    }
}

} // verus!
