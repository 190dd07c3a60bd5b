//! The tree of a Markdown document, as far as code blocks are concerned.

use vstd::prelude::*;
use crate::command::opt_view;

verus! {

/// What a [`CodeBlock`] holds, as plain values.
pub struct CodeBlockView {
    pub lang: Option<Seq<char>>,
    pub value: Seq<char>,
}

/// A fenced code block: its info string, if it has one, and its body.
#[derive(Debug, Clone, PartialEq, Eq)]
pub struct CodeBlock {
    /// The text behind the opening fence.
    pub lang: Option<String>,
    /// The lines between the fences.
    pub value: String,
}

impl View for CodeBlock {
    type V = CodeBlockView;

    open spec fn view(&self) -> CodeBlockView {
        CodeBlockView { lang: opt_view(self.lang), value: self.value@ }
    }
}

/// The views of a sequence of code blocks.
pub open spec fn block_views(blocks: Seq<CodeBlock>) -> Seq<CodeBlockView> {
    blocks.map_values(|b: CodeBlock| b@)
}

/// What an [`Element`] holds, as plain values.
pub enum ElementView {
    Code(CodeBlockView),
    Other(Seq<ElementView>),
}

/// A node of the document tree.
#[derive(Debug, PartialEq, Eq)]
pub enum Element {
    /// A fenced code block. It has no children.
    Code(CodeBlock),
    /// Any other node, with its children in document order; a leaf has none.
    Other(Vec<Element>),
}

/// The view of the node `node`.
pub open spec fn element_view(node: Element) -> ElementView
    decreases node,
{
    match node {
        Element::Code(block) => ElementView::Code(block@),
        Element::Other(children) => ElementView::Other(forest_view(children@)),
    }
}

/// The views of the nodes `nodes`.
pub open spec fn forest_view(nodes: Seq<Element>) -> Seq<ElementView>
    decreases nodes,
{
    if nodes.len() == 0 {
        Seq::<ElementView>::empty()
    } else {
        seq![element_view(nodes.first())] + forest_view(nodes.drop_first())
    }
}

impl View for Element {
    type V = ElementView;

    open spec fn view(&self) -> ElementView {
        element_view(*self)
    }
}

/// The code blocks at and below `node`, in document order.
pub open spec fn blocks_in(node: ElementView) -> Seq<CodeBlockView>
    decreases node,
{
    match node {
        ElementView::Code(block) => seq![block],
        ElementView::Other(children) => blocks_among(children),
    }
}

/// The code blocks at and below the nodes of `nodes`, in document order.
pub open spec fn blocks_among(nodes: Seq<ElementView>) -> Seq<CodeBlockView>
    decreases nodes,
{
    if nodes.len() == 0 {
        Seq::<CodeBlockView>::empty()
    } else {
        blocks_in(nodes.first()) + blocks_among(nodes.drop_first())
    }
}

/// The code blocks below the root of a document, in document order. A root
/// that is itself a code block has nothing below it.
pub open spec fn code_blocks(root: ElementView) -> Seq<CodeBlockView> {
    match root {
        ElementView::Code(_) => Seq::<CodeBlockView>::empty(),
        ElementView::Other(children) => blocks_among(children),
    }
}

/// The number of nodes at and below `node`.
pub open spec fn element_count(node: ElementView) -> nat
    decreases node,
{
    match node {
        ElementView::Code(_) => 1,
        ElementView::Other(children) => 1 + forest_count(children),
    }
}

/// The number of nodes at and below the nodes of `nodes`.
pub open spec fn forest_count(nodes: Seq<ElementView>) -> nat
    decreases nodes,
{
    if nodes.len() == 0 {
        0
    } else {
        element_count(nodes.first()) + forest_count(nodes.drop_first())
    }
}

/// The views of two runs of nodes, one after the other, are those of the
/// first run followed by those of the second.
pub proof fn lemma_forest_view_concat(a: Seq<Element>, b: Seq<Element>)
    ensures
        forest_view(a + b) == forest_view(a) + forest_view(b),
    decreases a.len(),
{
    if a.len() > 0 {
        assert((a + b).drop_first() =~= a.drop_first() + b);
        lemma_forest_view_concat(a.drop_first(), b);
    }
}

/// The code blocks of two runs of nodes, one after the other, are those of
/// the first run followed by those of the second.
pub proof fn lemma_blocks_among_concat(a: Seq<ElementView>, b: Seq<ElementView>)
    ensures
        blocks_among(a + b) == blocks_among(a) + blocks_among(b),
        forest_count(a + b) == forest_count(a) + forest_count(b),
    decreases a.len(),
{
    if a.len() > 0 {
        assert((a + b).drop_first() =~= a.drop_first() + b);
        lemma_blocks_among_concat(a.drop_first(), b);
    }
}

/// Moves `nodes` to the end of `pending`, last node first.
fn push_reversed(pending: &mut Vec<Element>, nodes: Vec<Element>)
    ensures
        final(pending)@ == old(pending)@ + nodes@.reverse(),
{
    let mut nodes = nodes;
    let ghost all = nodes@;
    while nodes.len() > 0
        invariant
            nodes@.len() <= all.len(),
            nodes@ == all.take(nodes@.len() as int),
            pending@ == old(pending)@ + all.skip(nodes@.len() as int).reverse(),
        decreases nodes.len(),
    {
        let node = nodes.pop().unwrap();
        pending.push(node);
    }
}

/// Every code block of the document under `markdown_ast`, in document order.
/// The tree is walked depth first: a code block is taken as it is met, and
/// the children of any other node are visited in order before its next
/// sibling.
pub fn get_all_code_blocks(markdown_ast: Element) -> (blocks: Vec<CodeBlock>)
    ensures
        block_views(blocks@) == code_blocks(markdown_ast@),
{
    let mut blocks: Vec<CodeBlock> = Vec::new();
    // The nodes still to visit; the next one is at the end.
    let mut pending: Vec<Element> = Vec::new();
    let ghost root = markdown_ast@;
    match markdown_ast {
        Element::Code(_) => {},
        Element::Other(children) => {
            push_reversed(&mut pending, children);
            proof {
                assert(pending@.reverse() =~= children@);
            }
        },
    }
    while pending.len() > 0
        invariant
            block_views(blocks@) + blocks_among(forest_view(pending@.reverse())) == code_blocks(
                root,
            ),
        decreases forest_count(forest_view(pending@.reverse())),
    {
        let ghost todo = pending@.reverse();
        let node = pending.pop().unwrap();
        let ghost rest = pending@.reverse();
        proof {
            // `node` is the first of the nodes to visit, and `rest` the others.
            assert(todo.drop_first() =~= rest);
            assert((seq![node@] + forest_view(rest)).drop_first() =~= forest_view(rest));
            assert(blocks_among(forest_view(todo)) == blocks_in(node@) + blocks_among(
                forest_view(rest),
            ));
            assert(forest_count(forest_view(todo)) == element_count(node@) + forest_count(
                forest_view(rest),
            ));
        }
        match node {
            Element::Code(block) => {
                blocks.push(block);
            },
            Element::Other(children) => {
                push_reversed(&mut pending, children);
                proof {
                    assert(pending@.reverse() =~= children@ + rest);
                    lemma_forest_view_concat(children@, rest);
                    lemma_blocks_among_concat(forest_view(children@), forest_view(rest));
                }
            },
        }
    }
    blocks
}

} // verus!
