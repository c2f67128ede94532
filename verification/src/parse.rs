//! The way from source text to the blocks of a document.

use crate::document::Block;
use crate::document::BlockView;
use crate::document::Code;
use crate::document::Heading;
use crate::document::Inline;
use markdown::mdast::Node;
use markdown::to_mdast;
use markdown::ParseOptions;
use vstd::prelude::*;

verus! {

/// The top-level blocks that the markup parser finds in `source`, in order,
/// or `None` where it gives no document tree, or a heading or a block of raw
/// text without a position.
pub uninterp spec fn parsed_blocks(source: Seq<char>) -> Option<Seq<BlockView>>;

/// Parses `source` with `markdown::to_mdast` under `ParseOptions::default()`
/// and hands out the children of the root: a heading with its depth, its
/// children (plain text, or something else) and its first line; a code block
/// with its meta string, its text and its first line; any other node as
/// [`Block::Other`].
///
/// Nothing is proved of this function. Its contract claims only that the
/// answer is a function of the characters of `source`, under the name
/// [`parsed_blocks`].
#[verifier::external_body]
pub(crate) fn parse_blocks(source: &str) -> (blocks: Option<Vec<Block>>)
    ensures
        match blocks {
            Some(found) => parsed_blocks(source@) == Some(found.deep_view()),
            None => parsed_blocks(source@) is None,
        },
{
    let Ok(Node::Root(root)) = to_mdast(source, &ParseOptions::default()) else { return None };
    let block = |node| Some(match node {
        Node::Heading(h) => Block::Heading(Heading {
            depth: h.depth,
            children: h.children.into_iter().map(|child| match child {
                Node::Text(text) => Inline::Text(text.value),
                _ => Inline::Other,
            }).collect(),
            line: h.position?.start.line,
        }),
        Node::Code(c) => Block::Code(Code { meta: c.meta, value: c.value, line: c.position?.start.line }),
        _ => Block::Other,
    });
    root.children.into_iter().map(block).collect()
}

} // verus!
