//! From Markdown text to the document tree, by the `markdown` crate.

use vstd::prelude::*;
use crate::document::{CodeBlock, Element, ElementView};

verus! {

/// `markdown::mdast::Node`: a node of the syntax tree that the `markdown`
/// crate builds.
#[verifier::external_type_specification]
#[verifier::external_body]
pub struct ExSyntaxNode(markdown::mdast::Node);

/// `markdown::message::Message`: what the `markdown` crate says of a text
/// that it cannot read.
#[verifier::external_type_specification]
#[verifier::external_body]
pub struct ExMessage(markdown::message::Message);

/// The document tree that a node of the syntax tree stands for: a code block
/// for a node of the variant `Code`, and for any other node the trees of its
/// children in order.
pub uninterp spec fn syntax_tree(node: markdown::mdast::Node) -> ElementView;

/// The document tree of `text`, read as GitHub-Flavored Markdown; `None`
/// where the `markdown` crate cannot read `text`.
pub uninterp spec fn gfm_tree(text: Seq<char>) -> Option<ElementView>;

/// `markdown::to_mdast` with the options of `markdown::ParseOptions::gfm`.
/// What it returns depends on `text` alone.
#[verifier::external_body]
fn parse_gfm(text: &str) -> (r: Result<markdown::mdast::Node, markdown::message::Message>)
    ensures
        r matches Ok(root) ==> gfm_tree(text@) == Some(syntax_tree(root)),
        r is Err ==> gfm_tree(text@) is None,
{
    markdown::to_mdast(text, &markdown::ParseOptions::gfm())
}

/// The node `node` of the syntax tree as a node of the document tree. A node
/// of the variant `Code` gives a code block with its `lang` and its `value`;
/// any other node gives its children, which `markdown::mdast::Node::children`
/// hands out, each converted in the same way.
#[verifier::external_body]
fn tree_of(node: &markdown::mdast::Node) -> (r: Element)
    ensures
        r@ == syntax_tree(*node),
{
    match node {
        markdown::mdast::Node::Code(code) => Element::Code(
            CodeBlock { lang: code.lang.clone(), value: code.value.clone() },
        ),
        other => Element::Other(other.children().into_iter().flatten().map(tree_of).collect()),
    }
}

/// Why a text is no document.
#[derive(Debug, PartialEq)]
pub struct MarkdownError {
    /// What the `markdown` crate says of the text.
    pub message: markdown::message::Message,
}

/// The document tree of `text`, read as GitHub-Flavored Markdown.
pub fn read_markdown(text: &str) -> (r: Result<Element, MarkdownError>)
    ensures
        r matches Ok(root) ==> gfm_tree(text@) == Some(root@),
        r is Err ==> gfm_tree(text@) is None,
{
    match parse_gfm(text) {
        Ok(root) => Ok(tree_of(&root)),
        Err(message) => Err(MarkdownError { message }),
    }
}

} // verus!
